//! What a streamed reply comes to, however it was cut into pieces.
use vstd::prelude::*;
use crate::stream::{argument_pieces, arguments_are_their_pieces, choice_events, gathered_all,
    open_line, payload_of, payloads_in, payloads_of, pending_after, text_events, with_place,
    ChunkChoiceView, DeltaToolCallView, PartialView, StreamEventView};
use crate::text::trimmed;
use crate::text_laws::{blank, ended_lines, pieces_of_ended_lines, tight, trimming_finds_the_text};

verus! {

// ── Texts ─────────────────────────────────────────────────────────────────────

/// The calls that are pending after a list of choices.
pub open spec fn pending_in(choices: Seq<ChunkChoiceView>) -> Seq<PartialView>
    decreases choices.len(),
{
    if choices.len() == 0 {
        seq![]
    } else {
        pending_after(pending_in(choices.drop_last()), choices.last())
    }
}

/// The events of a reply that came as `choices`.
pub open spec fn reply_events(choices: Seq<ChunkChoiceView>) -> Seq<StreamEventView>
    decreases choices.len(),
{
    if choices.len() == 0 {
        seq![]
    } else {
        reply_events(choices.drop_last()) + choice_events(
            pending_in(choices.drop_last()),
            choices.last(),
        )
    }
}

/// The texts of the events, one behind the other.
pub open spec fn text_said(events: Seq<StreamEventView>) -> Seq<char>
    decreases events.len(),
{
    if events.len() == 0 {
        seq![]
    } else {
        match events.last() {
            StreamEventView::Delta(s) => text_said(events.drop_last()) + s,
            _ => text_said(events.drop_last()),
        }
    }
}

/// The pieces of the chain of thought in the events, one behind the other.
pub open spec fn text_thought(events: Seq<StreamEventView>) -> Seq<char>
    decreases events.len(),
{
    if events.len() == 0 {
        seq![]
    } else {
        match events.last() {
            StreamEventView::Reasoning(s) => text_thought(events.drop_last()) + s,
            _ => text_thought(events.drop_last()),
        }
    }
}

/// The contents of the choices, one behind the other.
pub open spec fn contents(choices: Seq<ChunkChoiceView>) -> Seq<char>
    decreases choices.len(),
{
    if choices.len() == 0 {
        seq![]
    } else {
        match choices.last().content {
            Some(s) => contents(choices.drop_last()) + s,
            None => contents(choices.drop_last()),
        }
    }
}

/// The chains of thought of the choices, one behind the other.
pub open spec fn reasonings(choices: Seq<ChunkChoiceView>) -> Seq<char>
    decreases choices.len(),
{
    if choices.len() == 0 {
        seq![]
    } else {
        match choices.last().reasoning {
            Some(s) => reasonings(choices.drop_last()) + s,
            None => reasonings(choices.drop_last()),
        }
    }
}

proof fn said_sum(a: Seq<StreamEventView>, b: Seq<StreamEventView>)
    ensures
        text_said(a + b) == text_said(a) + text_said(b),
        text_thought(a + b) == text_thought(a) + text_thought(b),
    decreases b.len(),
{
    if b.len() == 0 {
        assert(a + b =~= a);
        assert(text_said(a) + text_said(b) =~= text_said(a));
        assert(text_thought(a) + text_thought(b) =~= text_thought(a));
    } else {
        said_sum(a, b.drop_last());
        assert((a + b).drop_last() =~= a + b.drop_last());
        assert(text_said(a + b) =~= text_said(a) + text_said(b));
        assert(text_thought(a + b) =~= text_thought(a) + text_thought(b));
    }
}

proof fn choice_says(pending: Seq<PartialView>, choice: ChunkChoiceView)
    ensures
        text_said(choice_events(pending, choice)) == match choice.content {
            Some(s) => s,
            None => seq![],
        },
        text_thought(choice_events(pending, choice)) == match choice.reasoning {
            Some(s) => s,
            None => seq![],
        },
{
    reveal_with_fuel(text_said, 4);
    reveal_with_fuel(text_thought, 4);
    let texts = text_events(choice);
    let all = choice_events(pending, choice);
    let said: Seq<char> = match choice.content {
        Some(s) => s,
        None => seq![],
    };
    let thought: Seq<char> = match choice.reasoning {
        Some(s) => s,
        None => seq![],
    };
    let a: Seq<StreamEventView> = if said.len() == 0 {
        seq![]
    } else {
        seq![StreamEventView::Delta(said)]
    };
    let b: Seq<StreamEventView> = if thought.len() == 0 {
        seq![]
    } else {
        seq![StreamEventView::Reasoning(thought)]
    };
    assert(texts =~= a + b);
    said_sum(a, b);
    assert(text_said(a) =~= said);
    assert(text_thought(a) =~= seq![]);
    assert(text_said(b) =~= seq![]);
    assert(text_thought(b) =~= thought);
    assert(text_said(texts) =~= said);
    assert(text_thought(texts) =~= thought);
    if all.len() > texts.len() {
        assert(all.drop_last() =~= texts);
        assert(text_said(all) == text_said(texts));
    } else {
        assert(all =~= texts);
    }
}

/// Whatever way a reply is cut into chunks, its text and its chain of thought come out whole: the
/// pieces that are handed out make what the chunks held, white space included.
pub proof fn a_reply_comes_out_whole(choices: Seq<ChunkChoiceView>)
    ensures
        text_said(reply_events(choices)) == contents(choices),
        text_thought(reply_events(choices)) == reasonings(choices),
    decreases choices.len(),
{
    if choices.len() > 0 {
        let before = choices.drop_last();
        a_reply_comes_out_whole(before);
        let now = choice_events(pending_in(before), choices.last());
        choice_says(pending_in(before), choices.last());
        said_sum(reply_events(before), now);
        assert(text_said(reply_events(choices)) =~= contents(choices));
        assert(text_thought(reply_events(choices)) =~= reasonings(choices));
    }
}

/// What one chunk says comes out before what it thinks, and an empty piece does not come out.
pub proof fn a_chunk_says_before_it_thinks(pending: Seq<PartialView>, choice: ChunkChoiceView)
    requires
        choice.finish_reason != Some("tool_calls"@),
    ensures
        ({
            let said: Seq<char> = match choice.content {
                Some(s) => s,
                None => seq![],
            };
            let thought: Seq<char> = match choice.reasoning {
                Some(s) => s,
                None => seq![],
            };
            let events = choice_events(pending, choice);
            &&& events.len() == (if said.len() > 0 {
                1int
            } else {
                0
            }) + (if thought.len() > 0 {
                1int
            } else {
                0
            })
            &&& said.len() > 0 ==> events[0] == StreamEventView::Delta(said)
            &&& thought.len() > 0 ==> events.last() == StreamEventView::Reasoning(thought)
        }),
{
}

// ── Calls ─────────────────────────────────────────────────────────────────────

/// All pieces of calls that the choices bring, in order.
pub open spec fn call_pieces(choices: Seq<ChunkChoiceView>) -> Seq<DeltaToolCallView>
    decreases choices.len(),
{
    if choices.len() == 0 {
        seq![]
    } else {
        call_pieces(choices.drop_last()) + choices.last().tool_calls
    }
}

/// The identifier that the pieces give the call at `index`: the last one.
pub open spec fn last_id(deltas: Seq<DeltaToolCallView>, index: nat) -> Seq<char>
    decreases deltas.len(),
{
    if deltas.len() == 0 {
        seq![]
    } else if deltas.last().index == index && deltas.last().id is Some {
        deltas.last().id->0
    } else {
        last_id(deltas.drop_last(), index)
    }
}

/// The name that the pieces give the call at `index`: the last one.
pub open spec fn last_name(deltas: Seq<DeltaToolCallView>, index: nat) -> Seq<char>
    decreases deltas.len(),
{
    if deltas.len() == 0 {
        seq![]
    } else if deltas.last().index == index && deltas.last().name is Some {
        deltas.last().name->0
    } else {
        last_name(deltas.drop_last(), index)
    }
}

proof fn gathered_has_places(deltas: Seq<DeltaToolCallView>)
    ensures
        forall|i: int|
            0 <= i < deltas.len() ==> (#[trigger] deltas[i]).index < gathered_all(
                seq![],
                deltas,
            ).len(),
        gathered_all(seq![], deltas).len() > 0 ==> exists|i: int|
            0 <= i < deltas.len() && (#[trigger] deltas[i]).index + 1 == gathered_all(
                seq![],
                deltas,
            ).len(),
    decreases deltas.len(),
{
    if deltas.len() > 0 {
        let before = deltas.drop_last();
        gathered_has_places(before);
        let g = gathered_all(seq![], before);
        let all = gathered_all(seq![], deltas);
        assert forall|i: int| 0 <= i < deltas.len() implies (#[trigger] deltas[i]).index
            < all.len() by {
            if i < before.len() {
                assert(before[i] == deltas[i]);
            }
        }
        if deltas.last().index < g.len() {
            let k = choose|i: int| 0 <= i < before.len() && (#[trigger] before[i]).index + 1
                == g.len();
            assert(deltas[k].index + 1 == all.len());
        } else {
            assert(deltas[deltas.len() - 1].index + 1 == all.len());
        }
    }
}

proof fn gathered_is_named(deltas: Seq<DeltaToolCallView>, index: nat)
    ensures
        index < gathered_all(seq![], deltas).len() ==> gathered_all(seq![], deltas)[index as int].id
            == last_id(deltas, index) && gathered_all(seq![], deltas)[index as int].name
            == last_name(deltas, index),
        index >= gathered_all(seq![], deltas).len() ==> last_id(deltas, index) == Seq::<
            char,
        >::empty() && last_name(deltas, index) == Seq::<char>::empty(),
    decreases deltas.len(),
{
    if deltas.len() > 0 {
        gathered_is_named(deltas.drop_last(), index);
        let g = gathered_all(seq![], deltas.drop_last());
        let placed = with_place(g, deltas.last().index);
        if index < placed.len() && index >= g.len() {
            assert(placed[index as int] == crate::stream::no_parts());
        }
    }
}

proof fn gathered_in_parts(a: Seq<DeltaToolCallView>, b: Seq<DeltaToolCallView>)
    ensures
        gathered_all(seq![], a + b) == gathered_all(gathered_all(seq![], a), b),
    decreases b.len(),
{
    if b.len() == 0 {
        assert(a + b =~= a);
    } else {
        gathered_in_parts(a, b.drop_last());
        assert((a + b).drop_last() =~= a + b.drop_last());
    }
}

proof fn pending_gathers(choices: Seq<ChunkChoiceView>)
    requires
        forall|i: int|
            0 <= i < choices.len() ==> (#[trigger] choices[i]).finish_reason != Some(
                "tool_calls"@,
            ),
    ensures
        pending_in(choices) == gathered_all(seq![], call_pieces(choices)),
        forall|i: int|
            0 <= i < reply_events(choices).len() ==> !(#[trigger] reply_events(
                choices,
            )[i] is ToolCalls),
    decreases choices.len(),
{
    if choices.len() > 0 {
        let before = choices.drop_last();
        assert forall|i: int| 0 <= i < before.len() implies (
        #[trigger] before[i]).finish_reason != Some("tool_calls"@) by {
            assert(before[i] == choices[i]);
        }
        pending_gathers(before);
        gathered_in_parts(call_pieces(before), choices.last().tool_calls);
        assert(choices[choices.len() - 1].finish_reason != Some("tool_calls"@));
        let now = choice_events(pending_in(before), choices.last());
        let all = reply_events(choices);
        assert forall|i: int| 0 <= i < all.len() implies !(#[trigger] all[i] is ToolCalls) by {
            let n = reply_events(before).len();
            if i < n {
                assert(all[i] == reply_events(before)[i]);
            } else {
                assert(all[i] == now[i - n]);
            }
        }
    }
}

/// A reply that ends with a request for tools hands out its calls once, as its last event, and
/// each with what its pieces say: the identifier and the name that came last, and the arguments
/// one behind the other. There is a call for every place that a piece names, and none behind the
/// last of them.
pub proof fn calls_come_out_whole(choices: Seq<ChunkChoiceView>)
    requires
        choices.len() > 0,
        choices.last().finish_reason == Some("tool_calls"@),
        forall|i: int|
            0 <= i < choices.len() - 1 ==> (#[trigger] choices[i]).finish_reason != Some(
                "tool_calls"@,
            ),
        call_pieces(choices).len() > 0,
    ensures
        ({
            let events = reply_events(choices);
            let deltas = call_pieces(choices);
            &&& events.len() > 0
            &&& forall|i: int| 0 <= i < events.len() - 1 ==> !(#[trigger] events[i] is ToolCalls)
            &&& events.last() matches StreamEventView::ToolCalls(calls) && {
                &&& forall|i: int|
                    0 <= i < deltas.len() ==> (#[trigger] deltas[i]).index < calls.len()
                &&& exists|i: int|
                    0 <= i < deltas.len() && (#[trigger] deltas[i]).index + 1 == calls.len()
                &&& forall|j: int|
                    0 <= j < calls.len() ==> (#[trigger] calls[j]).id == last_id(deltas, j as nat)
                        && calls[j].function.name == last_name(deltas, j as nat)
                        && calls[j].function.arguments == argument_pieces(deltas, j as nat)
                        && calls[j].kind == "function"@
            }
        }),
        pending_in(choices) == Seq::<PartialView>::empty(),
{
    let before = choices.drop_last();
    assert forall|i: int| 0 <= i < before.len() implies (#[trigger] before[i]).finish_reason
        != Some("tool_calls"@) by {
        assert(before[i] == choices[i]);
    }
    pending_gathers(before);
    gathered_in_parts(call_pieces(before), choices.last().tool_calls);
    let deltas = call_pieces(choices);
    let all = gathered_all(seq![], deltas);
    gathered_has_places(deltas);
    assert(deltas[0].index < all.len());
    let now = choice_events(pending_in(before), choices.last());
    let events = reply_events(choices);
    assert(events.last() == now.last());
    let n = reply_events(before).len();
    assert forall|i: int| 0 <= i < events.len() - 1 implies !(#[trigger] events[i] is ToolCalls) by {
        if i < n {
            assert(events[i] == reply_events(before)[i]);
        } else {
            assert(events[i] == now[i - n]);
        }
    }
    if let StreamEventView::ToolCalls(calls) = events.last() {
        assert(calls.len() == all.len());
        assert forall|j: int| 0 <= j < calls.len() implies (#[trigger] calls[j]).id == last_id(
            deltas,
            j as nat,
        ) && calls[j].function.name == last_name(deltas, j as nat) && calls[j].function.arguments
            == argument_pieces(deltas, j as nat) && calls[j].kind == "function"@ by {
            gathered_is_named(deltas, j as nat);
            arguments_are_their_pieces(deltas, j as nat);
            assert(calls[j] == crate::stream::whole_call(all[j]));
        }
    }
}

// ── Lines ─────────────────────────────────────────────────────────────────────

/// A line that carries `p` behind the mark `data:`.
pub open spec fn data_line(p: Seq<char>) -> Seq<char> {
    "data: "@ + p
}

/// Whether a text can be carried: it is tight and not empty, holds no line feed and is not the
/// end mark.
pub open spec fn can_be_carried(p: Seq<char>) -> bool {
    &&& p.len() > 0
    &&& tight(p)
    &&& !p.contains('\n')
    &&& p != "[DONE]"@
}

proof fn data_line_carries(p: Seq<char>)
    requires
        can_be_carried(p),
    ensures
        payload_of(data_line(p)) == Some(p),
        !data_line(p).contains('\n'),
{
    reveal_strlit("data: ");
    reveal_strlit("data:");
    let l = data_line(p);
    assert(l.last() == p.last());
    assert(tight(l));
    trimming_finds_the_text(seq![], l, seq![]);
    assert(Seq::<char>::empty() + l + Seq::<char>::empty() =~= l);
    assert("data:"@.is_prefix_of(l)) by {
        assert(l.subrange(0, 5) =~= "data:"@);
    }
    let rest = l.skip(5);
    assert(blank(seq![' ']));
    trimming_finds_the_text(seq![' '], p, seq![]);
    assert(rest =~= seq![' '] + p + Seq::<char>::empty());
    assert forall|i: int| 0 <= i < l.len() implies l[i] != '\n' by {
        if i >= 6 {
            assert(l[i] == p[i - 6]);
        }
    }
}

/// What the lines of a reply carry comes out, in order, and an unfinished line waits. The end mark
/// and an empty line carry nothing.
pub proof fn what_lines_carry_comes_out(payloads: Seq<Seq<char>>, rest: Seq<char>)
    requires
        forall|i: int| 0 <= i < payloads.len() ==> can_be_carried(#[trigger] payloads[i]),
        !rest.contains('\n'),
    ensures
        payloads_in(ended_lines(payloads.map_values(|p: Seq<char>| data_line(p))) + rest)
            == payloads,
        open_line(ended_lines(payloads.map_values(|p: Seq<char>| data_line(p))) + rest) == rest,
        payload_of("data: [DONE]"@) is None,
        payload_of(seq![]) is None,
{
    let lines = payloads.map_values(|p: Seq<char>| data_line(p));
    assert forall|i: int| 0 <= i < lines.len() implies !(#[trigger] lines[i]).contains('\n') by {
        assert(can_be_carried(payloads[i]));
        data_line_carries(payloads[i]);
    }
    pieces_of_ended_lines(lines, rest);
    assert(lines.push(rest).drop_last() =~= lines);
    data_lines_carry(payloads);
    reveal_strlit("data: [DONE]");
    reveal_strlit("[DONE]");
    reveal_strlit("data:");
    let l = "data: [DONE]"@;
    trimming_finds_the_text(seq![], l, seq![]);
    assert(Seq::<char>::empty() + l + Seq::<char>::empty() =~= l);
    assert(blank(seq![' ']));
    trimming_finds_the_text(seq![' '], "[DONE]"@, seq![]);
    assert(l.skip(5) =~= seq![' '] + "[DONE]"@ + Seq::<char>::empty());
    assert(crate::text::trimmed_start(Seq::<char>::empty()) =~= seq![]);
    assert(trimmed(Seq::<char>::empty()) =~= seq![]);
}

proof fn data_lines_carry(payloads: Seq<Seq<char>>)
    requires
        forall|i: int| 0 <= i < payloads.len() ==> can_be_carried(#[trigger] payloads[i]),
    ensures
        payloads_of(payloads.map_values(|p: Seq<char>| data_line(p))) == payloads,
    decreases payloads.len(),
{
    let lines = payloads.map_values(|p: Seq<char>| data_line(p));
    if payloads.len() > 0 {
        let before = payloads.drop_last();
        assert forall|i: int| 0 <= i < before.len() implies can_be_carried(
            #[trigger] before[i],
        ) by {
            assert(before[i] == payloads[i]);
        }
        data_lines_carry(before);
        assert(lines.drop_last() =~= before.map_values(|p: Seq<char>| data_line(p)));
        assert(can_be_carried(payloads[payloads.len() - 1]));
        data_line_carries(payloads.last());
        assert(payloads =~= before.push(payloads.last()));
    } else {
        assert(payloads_of(lines) =~= payloads);
    }
}

/// A line that does not open with `data:` carries nothing.
pub proof fn other_lines_carry_nothing(line: Seq<char>)
    requires
        !"data:"@.is_prefix_of(trimmed(line)),
    ensures
        payload_of(line) is None,
{
}

} // verus!
