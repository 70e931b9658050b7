//! The reply of a model as it arrives: server-sent lines, and tool calls in pieces.
use vstd::prelude::*;
use vstd::utf8::{decode_utf8, valid_utf8};
use crate::message::{call_views, FunctionCall, FunctionCallView, ToolCall, ToolCallView};
use crate::search::{after_prefix, strip_prefix};
use crate::split::{pieces, pieces_hold_no_separator, pieces_of_sum, split_char};
use crate::text::{opt_view, str_eq, trim, trimmed, views};

verus! {

/// What a model sends while it replies.
#[derive(Debug)]
pub enum StreamEvent {
    /// A piece of the assistant's text.
    Delta(String),
    /// A piece of the chain of thought.
    Reasoning(String),
    /// The model has finished asking for a set of tool calls.
    ToolCalls(Vec<ToolCall>),
}

/// What a [`StreamEvent`] holds.
#[verifier::ext_equal]
pub enum StreamEventView {
    Delta(Seq<char>),
    Reasoning(Seq<char>),
    ToolCalls(Seq<ToolCallView>),
}

impl View for StreamEvent {
    type V = StreamEventView;

    open spec fn view(&self) -> StreamEventView {
        match self {
            StreamEvent::Delta(s) => StreamEventView::Delta(s@),
            StreamEvent::Reasoning(s) => StreamEventView::Reasoning(s@),
            StreamEvent::ToolCalls(c) => StreamEventView::ToolCalls(call_views(c@)),
        }
    }
}

/// The views of a list of stream events.
pub open spec fn stream_views(events: Seq<StreamEvent>) -> Seq<StreamEventView> {
    events.map_values(|e: StreamEvent| e@)
}

// ── Server-sent lines ─────────────────────────────────────────────────────────

/// What a line carries: the text behind `data:`, unless that is empty or the end mark.
pub open spec fn payload_of(line: Seq<char>) -> Option<Seq<char>> {
    match after_prefix(trimmed(line), "data:"@) {
        None => None,
        Some(rest) => {
            let data = trimmed(rest);
            if data.len() == 0 || data == "[DONE]"@ {
                None
            } else {
                Some(data)
            }
        },
    }
}

/// What a list of lines carries, in order.
pub open spec fn payloads_of(lines: Seq<Seq<char>>) -> Seq<Seq<char>>
    decreases lines.len(),
{
    if lines.len() == 0 {
        seq![]
    } else {
        match payload_of(lines.last()) {
            Some(p) => payloads_of(lines.drop_last()).push(p),
            None => payloads_of(lines.drop_last()),
        }
    }
}

/// What the finished lines of `text` carry.
pub open spec fn payloads_in(text: Seq<char>) -> Seq<Seq<char>> {
    payloads_of(pieces(text, '\n').drop_last())
}

/// The line of `text` that has not ended yet.
pub open spec fn open_line(text: Seq<char>) -> Seq<char> {
    pieces(text, '\n').last()
}

/// The text behind `data:` in a line, unless that is empty or the end mark.
pub fn line_payload(line: &str) -> (r: Option<String>)
    ensures
        opt_view(r) == payload_of(line@),
{
    let line = trim(line);
    match strip_prefix(line.as_str(), "data:") {
        None => None,
        Some(rest) => {
            let data = trim(rest.as_str());
            if data.as_str().is_empty() || str_eq(data.as_str(), "[DONE]") {
                None
            } else {
                Some(data)
            }
        },
    }
}

/// What bytes that are not UTF-8 are read as.
pub uninterp spec fn utf8_repaired(bytes: Seq<u8>) -> Seq<char>;

/// The text that bytes are read as: the text that they encode, where they are UTF-8.
pub open spec fn lossy(bytes: Seq<u8>) -> Seq<char> {
    if valid_utf8(bytes) {
        decode_utf8(bytes)
    } else {
        utf8_repaired(bytes)
    }
}

/// `String::from_utf8_lossy`: bytes that are UTF-8 come out as the text that they encode. What
/// takes the place of other bytes is left to it.
#[verifier::external_body]
pub(crate) fn lossy_text(bytes: &Vec<u8>) -> (r: String)
    ensures
        valid_utf8(bytes@) ==> r@ == decode_utf8(bytes@),
        !valid_utf8(bytes@) ==> r@ == utf8_repaired(bytes@),
{
    String::from_utf8_lossy(bytes).into_owned()
}

/// Cuts an arriving text into lines and hands out what they carry.
#[derive(Debug)]
pub struct SseDecoder {
    buffer: String,
}

impl View for SseDecoder {
    type V = Seq<char>;

    closed spec fn view(&self) -> Seq<char> {
        self.buffer@
    }
}

impl SseDecoder {
    /// A decoder that has seen nothing.
    pub fn new() -> (r: Self)
        ensures
            r@ == Seq::<char>::empty(),
    {
        SseDecoder { buffer: String::new() }
    }

    /// Takes in `text` and hands out what the lines that it finishes carry.
    pub fn feed(&mut self, text: &str) -> (r: Vec<String>)
        ensures
            views(r@) == payloads_in(old(self)@ + text@),
            final(self)@ == open_line(old(self)@ + text@),
    {
        self.buffer.push_str(text);
        let ghost all = self.buffer@;
        let parts = split_char(self.buffer.as_str(), '\n');
        proof {
            pieces_hold_no_separator(all, '\n');
        }
        let ghost lines = pieces(all, '\n').drop_last();
        assert(parts@.len() == pieces(all, '\n').len());
        let mut out: Vec<String> = Vec::new();
        let mut i: usize = 0;
        assert(lines.take(0) =~= seq![]);
        while i + 1 < parts.len()
            invariant
                views(parts@) == pieces(all, '\n'),
                parts@.len() >= 1,
                parts@.len() == pieces(all, '\n').len(),
                lines == pieces(all, '\n').drop_last(),
                i < parts.len(),
                views(out@) == payloads_of(lines.take(i as int)),
            decreases parts.len() - i,
        {
            let ghost before = out@;
            assert(views(parts@)[i as int] == parts@[i as int]@);
            assert(lines.take(i + 1).drop_last() =~= lines.take(i as int));
            assert(lines.take(i + 1).last() == parts@[i as int]@);
            if let Some(p) = line_payload(parts[i].as_str()) {
                out.push(p);
                assert(views(out@) =~= views(before).push(p@));
            }
            i = i + 1;
        }
        assert(lines.take(i as int) =~= lines);
        assert(views(parts@)[i as int] == parts@[i as int]@);
        self.buffer = parts[i].clone();
        out
    }

    /// Takes in a chunk of bytes and hands out what the lines that it finishes carry.
    pub fn feed_bytes(&mut self, chunk: &Vec<u8>) -> (r: Vec<String>)
        ensures
            views(r@) == payloads_in(old(self)@ + lossy(chunk@)),
            final(self)@ == open_line(old(self)@ + lossy(chunk@)),
    {
        let text = lossy_text(chunk);
        self.feed(text.as_str())
    }
}

/// What two lists of lines carry, one behind the other.
pub proof fn payloads_of_sum(a: Seq<Seq<char>>, b: Seq<Seq<char>>)
    ensures
        payloads_of(a + b) == payloads_of(a) + payloads_of(b),
    decreases b.len(),
{
    if b.len() == 0 {
        assert(a + b =~= a);
        assert(payloads_of(a) + payloads_of(b) =~= payloads_of(a));
    } else {
        payloads_of_sum(a, b.drop_last());
        assert((a + b).drop_last() =~= a + b.drop_last());
        assert((a + b).last() == b.last());
        assert(payloads_of(a + b) =~= payloads_of(a) + payloads_of(b));
    }
}

/// How the text of a reply is cut into chunks makes no difference: taking in `a` and then `b`
/// hands out the same payloads, and leaves the same open line, as taking in both at once.
pub proof fn chunks_make_no_difference(buffer: Seq<char>, a: Seq<char>, b: Seq<char>)
    ensures
        payloads_in(buffer + (a + b)) == payloads_in(buffer + a) + payloads_in(
            open_line(buffer + a) + b,
        ),
        open_line(buffer + (a + b)) == open_line(open_line(buffer + a) + b),
{
    let x = buffer + a;
    assert(buffer + (a + b) =~= x + b);
    pieces_of_sum(x, b, '\n');
    pieces_hold_no_separator(x, '\n');
    pieces_hold_no_separator(open_line(x) + b, '\n');
    let head = pieces(x, '\n').drop_last();
    let tail = pieces(open_line(x) + b, '\n');
    assert((head + tail).drop_last() =~= head + tail.drop_last());
    assert((head + tail).last() == tail.last());
    payloads_of_sum(head, tail.drop_last());
}

// ── Tool calls in pieces ──────────────────────────────────────────────────────

/// A piece of a tool call.
#[derive(Debug)]
pub struct DeltaToolCall {
    pub index: u32,
    pub id: Option<String>,
    pub name: Option<String>,
    pub arguments: Option<String>,
}

/// What a [`DeltaToolCall`] holds.
pub struct DeltaToolCallView {
    pub index: nat,
    pub id: Option<Seq<char>>,
    pub name: Option<Seq<char>>,
    pub arguments: Option<Seq<char>>,
}

impl View for DeltaToolCall {
    type V = DeltaToolCallView;

    open spec fn view(&self) -> DeltaToolCallView {
        DeltaToolCallView {
            index: self.index as nat,
            id: opt_view(self.id),
            name: opt_view(self.name),
            arguments: opt_view(self.arguments),
        }
    }
}

/// The views of a list of pieces.
pub open spec fn delta_views(deltas: Seq<DeltaToolCall>) -> Seq<DeltaToolCallView> {
    deltas.map_values(|d: DeltaToolCall| d@)
}

/// The first choice of a chunk of the reply.
#[derive(Debug)]
pub struct ChunkChoice {
    pub content: Option<String>,
    pub reasoning: Option<String>,
    pub tool_calls: Vec<DeltaToolCall>,
    pub finish_reason: Option<String>,
}

/// What a [`ChunkChoice`] holds.
#[verifier::ext_equal]
pub struct ChunkChoiceView {
    pub content: Option<Seq<char>>,
    pub reasoning: Option<Seq<char>>,
    pub tool_calls: Seq<DeltaToolCallView>,
    pub finish_reason: Option<Seq<char>>,
}

impl View for ChunkChoice {
    type V = ChunkChoiceView;

    open spec fn view(&self) -> ChunkChoiceView {
        ChunkChoiceView {
            content: opt_view(self.content),
            reasoning: opt_view(self.reasoning),
            tool_calls: delta_views(self.tool_calls@),
            finish_reason: opt_view(self.finish_reason),
        }
    }
}

/// A tool call of which pieces have arrived.
#[derive(Debug)]
struct PartialToolCall {
    id: String,
    name: String,
    arguments: String,
}

/// What has arrived of a tool call.
pub struct PartialView {
    pub id: Seq<char>,
    pub name: Seq<char>,
    pub arguments: Seq<char>,
}

impl View for PartialToolCall {
    type V = PartialView;

    closed spec fn view(&self) -> PartialView {
        PartialView { id: self.id@, name: self.name@, arguments: self.arguments@ }
    }
}

/// A tool call of which nothing has arrived.
pub open spec fn no_parts() -> PartialView {
    PartialView { id: seq![], name: seq![], arguments: seq![] }
}

/// The tool call that was put together.
pub open spec fn whole_call(p: PartialView) -> ToolCallView {
    ToolCallView {
        id: p.id,
        kind: "function"@,
        function: FunctionCallView { name: p.name, arguments: p.arguments },
    }
}

/// `p` with the piece `d`: the identifier and the name replace the earlier ones, the arguments
/// are put behind them.
pub open spec fn with_piece(p: PartialView, d: DeltaToolCallView) -> PartialView {
    PartialView {
        id: match d.id {
            Some(id) => id,
            None => p.id,
        },
        name: match d.name {
            Some(name) => name,
            None => p.name,
        },
        arguments: match d.arguments {
            Some(a) => p.arguments + a,
            None => p.arguments,
        },
    }
}

/// `pending` made long enough to have a place `index`.
pub open spec fn with_place(pending: Seq<PartialView>, index: nat) -> Seq<PartialView> {
    if index < pending.len() {
        pending
    } else {
        pending + Seq::new((index + 1 - pending.len()) as nat, |i: int| no_parts())
    }
}

/// `pending` with the piece `d` at its place.
pub open spec fn gathered(pending: Seq<PartialView>, d: DeltaToolCallView) -> Seq<PartialView> {
    let p = with_place(pending, d.index);
    p.update(d.index as int, with_piece(p[d.index as int], d))
}

/// `pending` with a list of pieces, each at its place.
pub open spec fn gathered_all(
    pending: Seq<PartialView>,
    deltas: Seq<DeltaToolCallView>,
) -> Seq<PartialView>
    decreases deltas.len(),
{
    if deltas.len() == 0 {
        pending
    } else {
        gathered(gathered_all(pending, deltas.drop_last()), deltas.last())
    }
}

/// The texts that a choice carries, as events.
pub open spec fn text_events(choice: ChunkChoiceView) -> Seq<StreamEventView> {
    let text = match choice.content {
        Some(s) => if s.len() == 0 {
            seq![]
        } else {
            seq![StreamEventView::Delta(s)]
        },
        None => seq![],
    };
    let thought = match choice.reasoning {
        Some(s) => if s.len() == 0 {
            seq![]
        } else {
            seq![StreamEventView::Reasoning(s)]
        },
        None => seq![],
    };
    text + thought
}

/// Whether a choice closes the tool calls that are pending.
pub open spec fn closes_calls(pending: Seq<PartialView>, choice: ChunkChoiceView) -> bool {
    choice.finish_reason == Some("tool_calls"@) && gathered_all(
        pending,
        choice.tool_calls,
    ).len() > 0
}

/// The tool calls that are pending after a choice.
pub open spec fn pending_after(pending: Seq<PartialView>, choice: ChunkChoiceView) -> Seq<
    PartialView,
> {
    if closes_calls(pending, choice) {
        seq![]
    } else {
        gathered_all(pending, choice.tool_calls)
    }
}

/// The events that a choice gives rise to.
pub open spec fn choice_events(pending: Seq<PartialView>, choice: ChunkChoiceView) -> Seq<
    StreamEventView,
> {
    let texts = text_events(choice);
    if closes_calls(pending, choice) {
        texts.push(
            StreamEventView::ToolCalls(
                gathered_all(pending, choice.tool_calls).map_values(
                    |p: PartialView| whole_call(p),
                ),
            ),
        )
    } else {
        texts
    }
}

/// Puts the tool calls of a reply together.
#[derive(Debug)]
pub struct ToolCallAssembler {
    pending: Vec<PartialToolCall>,
}

impl View for ToolCallAssembler {
    type V = Seq<PartialView>;

    closed spec fn view(&self) -> Seq<PartialView> {
        self.pending@.map_values(|p: PartialToolCall| p@)
    }
}

impl ToolCallAssembler {
    /// An assembler without pieces.
    pub fn new() -> (r: Self)
        ensures
            r@ == Seq::<PartialView>::empty(),
    {
        let r = ToolCallAssembler { pending: Vec::new() };
        assert(r@ =~= Seq::<PartialView>::empty());
        r
    }

    /// Puts one piece at its place.
    fn gather(&mut self, d: &DeltaToolCall)
        ensures
            final(self)@ == gathered(old(self)@, d@),
    {
        let idx = d.index as usize;
        let ghost before = self@;
        while self.pending.len() <= idx
            invariant
                before.len() <= self@.len(),
                self@.len() <= idx + 1 || self@ == before,
                self@ == before + Seq::new(
                    (self@.len() - before.len()) as nat,
                    |i: int| no_parts(),
                ),
            decreases idx + 1 - self@.len(),
        {
            let ghost now = self@;
            self.pending.push(
                PartialToolCall {
                    id: String::new(),
                    name: String::new(),
                    arguments: String::new(),
                },
            );
            assert(self@ =~= now.push(no_parts()));
            assert(self@ =~= before + Seq::new(
                (self@.len() - before.len()) as nat,
                |i: int| no_parts(),
            ));
        }
        let ghost placed = self@;
        assert(placed =~= with_place(before, d@.index));
        let ghost slot = self.pending@[idx as int]@;
        let id = match &d.id {
            Some(id) => id.clone(),
            None => self.pending[idx].id.clone(),
        };
        let name = match &d.name {
            Some(name) => name.clone(),
            None => self.pending[idx].name.clone(),
        };
        let mut arguments = self.pending[idx].arguments.clone();
        if let Some(a) = &d.arguments {
            arguments.push_str(a.as_str());
        }
        let next = PartialToolCall { id, name, arguments };
        assert(next@ == with_piece(slot, d@));
        self.pending.set(idx, next);
        assert(self@ =~= placed.update(idx as int, next@));
    }

    /// Hands out the calls that were put together, and keeps none.
    fn drain(&mut self) -> (r: Vec<ToolCall>)
        ensures
            final(self)@ == Seq::<PartialView>::empty(),
            call_views(r@) == old(self)@.map_values(|p: PartialView| whole_call(p)),
    {
        let mut out: Vec<ToolCall> = Vec::new();
        let mut i: usize = 0;
        while i < self.pending.len()
            invariant
                i <= self.pending.len(),
                out@.len() == i,
                *self == *old(self),
                forall|j: int| 0 <= j < i ==> (#[trigger] out@[j])@ == whole_call(self@[j]),
            decreases self.pending.len() - i,
        {
            let p = &self.pending[i];
            assert(self@[i as int] == p@);
            out.push(
                ToolCall {
                    id: p.id.clone(),
                    kind: "function".to_owned(),
                    function: FunctionCall {
                        name: p.name.clone(),
                        arguments: p.arguments.clone(),
                    },
                },
            );
            i = i + 1;
        }
        assert(call_views(out@) =~= old(self)@.map_values(|p: PartialView| whole_call(p)));
        self.pending = Vec::new();
        assert(self@ =~= Seq::<PartialView>::empty());
        out
    }

    /// Takes in a choice and hands out the events that it gives rise to.
    pub fn apply(&mut self, choice: ChunkChoice) -> (r: Vec<StreamEvent>)
        ensures
            stream_views(r@) == choice_events(old(self)@, choice@),
            final(self)@ == pending_after(old(self)@, choice@),
    {
        let ghost before = self@;
        let mut out: Vec<StreamEvent> = Vec::new();
        if let Some(s) = &choice.content {
            if !s.as_str().is_empty() {
                out.push(StreamEvent::Delta(s.clone()));
            }
        }
        if let Some(s) = &choice.reasoning {
            if !s.as_str().is_empty() {
                out.push(StreamEvent::Reasoning(s.clone()));
            }
        }
        assert(stream_views(out@) =~= text_events(choice@));
        let ghost texts = out@;
        let mut i: usize = 0;
        assert(choice@.tool_calls.take(0) =~= seq![]);
        while i < choice.tool_calls.len()
            invariant
                i <= choice.tool_calls.len(),
                self@ == gathered_all(before, choice@.tool_calls.take(i as int)),
            decreases choice.tool_calls.len() - i,
        {
            self.gather(&choice.tool_calls[i]);
            assert(choice@.tool_calls.take(i + 1).drop_last() =~= choice@.tool_calls.take(
                i as int,
            ));
            assert(choice@.tool_calls.take(i + 1).last() == choice.tool_calls@[i as int]@);
            i = i + 1;
        }
        assert(choice@.tool_calls.take(i as int) =~= choice@.tool_calls);
        let closing = match &choice.finish_reason {
            Some(s) => str_eq(s.as_str(), "tool_calls"),
            None => false,
        };
        if closing && self.pending.len() > 0 {
            let calls = self.drain();
            let e = StreamEvent::ToolCalls(calls);
            out.push(e);
            assert(stream_views(out@) =~= stream_views(texts).push(e@));
        }
        out
    }
}

/// The pieces of arguments that `deltas` bring for the call at `index`, one behind the other.
pub open spec fn argument_pieces(deltas: Seq<DeltaToolCallView>, index: nat) -> Seq<char>
    decreases deltas.len(),
{
    if deltas.len() == 0 {
        seq![]
    } else {
        let d = deltas.last();
        let before = argument_pieces(deltas.drop_last(), index);
        if d.index == index {
            match d.arguments {
                Some(a) => before + a,
                None => before,
            }
        } else {
            before
        }
    }
}

/// The arguments of a call are its pieces in the order of their arrival, however the pieces of
/// different calls alternate.
pub proof fn arguments_are_their_pieces(deltas: Seq<DeltaToolCallView>, index: nat)
    requires
        index < gathered_all(seq![], deltas).len(),
    ensures
        gathered_all(seq![], deltas)[index as int].arguments == argument_pieces(deltas, index),
    decreases deltas.len(),
{
    if deltas.len() > 0 {
        let before = gathered_all(seq![], deltas.drop_last());
        let d = deltas.last();
        let placed = with_place(before, d.index);
        if index < before.len() {
            arguments_are_their_pieces(deltas.drop_last(), index);
            assert(placed[index as int] == before[index as int]);
        } else {
            no_pieces_outside(deltas.drop_last(), index);
            assert(placed[index as int] == no_parts());
        }
        if d.index == index {
            assert(gathered_all(seq![], deltas)[index as int] == with_piece(
                placed[index as int],
                d,
            ));
        }
        assert(gathered_all(seq![], deltas)[index as int].arguments =~= argument_pieces(
            deltas,
            index,
        ));
    }
}

/// A call that has no place yet has no pieces either.
proof fn no_pieces_outside(deltas: Seq<DeltaToolCallView>, index: nat)
    requires
        index >= gathered_all(seq![], deltas).len(),
    ensures
        argument_pieces(deltas, index) == Seq::<char>::empty(),
    decreases deltas.len(),
{
    if deltas.len() > 0 {
        no_pieces_outside(deltas.drop_last(), index);
    }
}

} // verus!
