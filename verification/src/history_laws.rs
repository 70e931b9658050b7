//! What the chat shows of a stored conversation.
use vstd::prelude::*;
use crate::format::{invocation, thought_summary, truncated};
use crate::history::{base_of, by_id, history_rows, output_of, output_text, rows_of_message,
    rows_up_to, HistoryRowView};
use crate::json::json_object;
use crate::message::{MessageView, Role};

verus! {

/// Of the values that were put under an identifier the last one counts; the others stay as they
/// were.
pub proof fn the_last_value_counts<V>(pairs: Seq<(i64, V)>, id: i64, value: V, other: i64)
    requires
        other != id,
    ensures
        by_id(pairs.push((id, value)), id) == Some(value),
        by_id(pairs.push((id, value)), other) == by_id(pairs, other),
        by_id(Seq::<(i64, V)>::empty(), id) is None,
{
    assert(pairs.push((id, value)).drop_last() =~= pairs);
}

/// The answer to a call is the text of the last result that is tied to it.
pub proof fn an_answer_is_found_by_its_call(
    before: Seq<(i64, MessageView)>,
    result: (i64, MessageView),
    behind: Seq<(i64, MessageView)>,
    id: Seq<char>,
)
    requires
        result.1.role == Role::Tool,
        result.1.tool_call_id == Some(id),
        forall|i: int|
            0 <= i < behind.len() ==> (#[trigger] behind[i]).1.role != Role::Tool
                || behind[i].1.tool_call_id != Some(id),
    ensures
        output_of(before.push(result) + behind, id) == Some(result.1.content),
    decreases behind.len(),
{
    let all = before.push(result) + behind;
    if behind.len() == 0 {
        assert(all =~= before.push(result));
    } else {
        let front = behind.drop_last();
        assert forall|i: int| 0 <= i < front.len() implies (#[trigger] front[i]).1.role
            != Role::Tool || front[i].1.tool_call_id != Some(id) by {
            assert(front[i] == behind[i]);
        }
        an_answer_is_found_by_its_call(before, result, front, id);
        assert(all.drop_last() =~= before.push(result) + front);
        assert(all.last() == behind[behind.len() - 1]);
    }
}

/// Whether the rows `part` stand in `rows`, one behind the other.
pub open spec fn stand_in(part: Seq<HistoryRowView>, rows: Seq<HistoryRowView>, at: int) -> bool {
    0 <= at && at + part.len() <= rows.len() && rows.subrange(at, at + part.len()) == part
}

proof fn rows_stand(
    messages: Seq<(i64, MessageView)>,
    n: nat,
    i: int,
    snapshots: Seq<(i64, Seq<char>)>,
    durations: Seq<(i64, u64)>,
) -> (at: int)
    requires
        0 <= i < n <= messages.len(),
    ensures
        at == rows_up_to(messages, i as nat, snapshots, durations).len(),
        stand_in(
            rows_of_message(messages, messages[i].0, messages[i].1, snapshots, durations),
            rows_up_to(messages, n, snapshots, durations),
            at,
        ),
    decreases n,
{
    let part = rows_of_message(messages, messages[i].0, messages[i].1, snapshots, durations);
    let all = rows_up_to(messages, n, snapshots, durations);
    if i == n - 1 {
        let at = rows_up_to(messages, i as nat, snapshots, durations).len() as int;
        assert(all.subrange(at, at + part.len()) =~= part);
        at
    } else {
        let m = (n - 1) as nat;
        let at = rows_stand(messages, m, i, snapshots, durations);
        let front = rows_up_to(messages, m, snapshots, durations);
        assert(all.subrange(at, at + part.len()) =~= front.subrange(at, at + part.len()));
        at
    }
}

/// Every message is in the chat, where it stands in the conversation. What the user or the
/// application said is there word for word. Of a message of the assistant there is the chain of
/// thought with how long it took, the text, and every call with what its tool answered; behind
/// the last of them is the way back, where there is a snapshot. The results of tools have no rows
/// of their own.
pub proof fn every_message_is_shown(
    messages: Seq<(i64, MessageView)>,
    i: int,
    snapshots: Seq<(i64, Seq<char>)>,
    durations: Seq<(i64, u64)>,
) -> (at: int)
    requires
        0 <= i < messages.len(),
    ensures
        ({
            let (id, m) = messages[i];
            let rows = history_rows(messages, snapshots, durations);
            let thought: int = if m.reasoning matches Some(r) && r.len() > 0 {
                1
            } else {
                0
            };
            let text: int = if m.content.len() > 0 {
                1
            } else {
                0
            };
            let n = m.tool_calls.len();
            match m.role {
                Role::Tool => true,
                Role::Assistant => {
                    &&& 0 <= at && at + thought + text + n <= rows.len()
                    &&& thought == 1 ==> rows[at] == (HistoryRowView::Thought {
                        summary: thought_summary(
                            match by_id(durations, id) {
                                Some(ms) => ms as nat,
                                None => 0,
                            },
                        ),
                        text: m.reasoning->0,
                    })
                    &&& text == 1 ==> rows[at + thought] == (HistoryRowView::Reply {
                        text: m.content,
                    })
                    &&& forall|k: int|
                        0 <= k < n ==> #[trigger] rows[at + thought + text + k] == (
                        HistoryRowView::Tool {
                            name: m.tool_calls[k].function.name,
                            invocation: invocation(
                                m.tool_calls[k].function.name,
                                m.tool_calls[k].function.arguments,
                                json_object(m.tool_calls[k].function.arguments),
                            ),
                            output: truncated(output_text(messages, m.tool_calls[k].id), 4000),
                            revert: if k == n - 1 && by_id(snapshots, id) is Some {
                                Some(id)
                            } else {
                                None
                            },
                        })
                },
                _ => 0 <= at < rows.len() && rows[at] == (HistoryRowView::Bubble {
                    role: m.role,
                    text: m.content,
                }),
            }
        }),
{
    let (id, m) = messages[i];
    let at = rows_stand(messages, messages.len(), i, snapshots, durations);
    let rows = history_rows(messages, snapshots, durations);
    let part = rows_of_message(messages, id, m, snapshots, durations);
    assert forall|k: int| 0 <= k < part.len() implies #[trigger] rows[at + k] == part[k] by {
        assert(rows.subrange(at, at + part.len())[k] == part[k]);
    }
    if m.role == Role::Assistant {
        let thought: int = if m.reasoning matches Some(r) && r.len() > 0 {
            1
        } else {
            0
        };
        let text: int = if m.content.len() > 0 {
            1
        } else {
            0
        };
        assert(part.len() == thought + text + m.tool_calls.len());
        if thought == 1 {
            assert(rows[at + 0] == part[0]);
        }
        if text == 1 {
            assert(rows[at + thought] == part[thought]);
        }
        let revert: Option<i64> = if by_id(snapshots, id) is Some {
            Some(id)
        } else {
            None
        };
        let calls = crate::history::call_rows(messages, m.tool_calls, revert);
        assert forall|k: int| 0 <= k < m.tool_calls.len() implies #[trigger] rows[at + thought
            + text + k] == calls[k] by {
            assert(rows[at + (thought + text + k)] == part[thought + text + k]);
            assert(part[thought + text + k] == calls[k]);
        }
    } else if m.role != Role::Tool {
        assert(rows[at + 0] == part[0]);
    }
    at
}

/// What the chat shows is made of the rows of the messages, in their order, and nothing else.
pub proof fn rows_follow_the_messages(
    messages: Seq<(i64, MessageView)>,
    n: nat,
    snapshots: Seq<(i64, Seq<char>)>,
    durations: Seq<(i64, u64)>,
)
    requires
        n < messages.len(),
    ensures
        ({
            let m = messages[n as int].1;
            let before = rows_up_to(messages, n, snapshots, durations).len();
            let now = rows_up_to(messages, n + 1, snapshots, durations).len();
            now - before == match m.role {
                Role::Tool => 0,
                Role::Assistant => m.tool_calls.len() + (if m.reasoning matches Some(r) && r.len()
                    > 0 {
                    1int
                } else {
                    0
                }) + (if m.content.len() > 0 {
                    1int
                } else {
                    0
                }),
                _ => 1,
            }
        }),
        history_rows(messages, snapshots, durations) == rows_up_to(
            messages,
            messages.len(),
            snapshots,
            durations,
        ),
{
}

/// The first snapshot of a conversation is that of the first message that has one.
pub proof fn the_first_snapshot_is_the_base(
    messages: Seq<(i64, MessageView)>,
    snapshots: Seq<(i64, Seq<char>)>,
    i: int,
    hash: Seq<char>,
)
    requires
        0 <= i < messages.len(),
        by_id(snapshots, messages[i].0) == Some(hash),
        forall|j: int| 0 <= j < i ==> by_id(snapshots, (#[trigger] messages[j]).0) is None,
    ensures
        base_of(messages, snapshots) == Some(hash),
    decreases messages.len(),
{
    if i > 0 {
        assert(by_id(snapshots, messages[0].0) is None);
        let rest = messages.drop_first();
        assert forall|j: int| 0 <= j < i - 1 implies by_id(
            snapshots,
            (#[trigger] rest[j]).0,
        ) is None by {
            assert(rest[j] == messages[j + 1]);
        }
        the_first_snapshot_is_the_base(rest, snapshots, i - 1, hash);
    }
}

} // verus!
