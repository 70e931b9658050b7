//! What a Markdown message comes to: its prose in markup, and its code as it is.
use vstd::prelude::*;
use crate::markdown::{blocks_of, code_pieces, code_text, flushed, md_after, md_start, md_with,
    BlockView, MdEventView, MdView};
use crate::markup::{escaped, escaped_char, hex_char};
use crate::text::{is_white, trimmed_end};
use crate::text_laws::{blank, trimming_the_end_takes_white};

verus! {

// ── Escapes ───────────────────────────────────────────────────────────────────

/// Two texts in markup, one behind the other, are the markup of the two texts.
pub proof fn escapes_add_up(a: Seq<char>, b: Seq<char>)
    ensures
        escaped(a + b) == escaped(a) + escaped(b),
    decreases b.len(),
{
    if b.len() == 0 {
        assert(a + b =~= a);
        assert(escaped(a) + escaped(b) =~= escaped(a));
    } else {
        escapes_add_up(a, b.drop_last());
        assert((a + b).drop_last() =~= a + b.drop_last());
        assert(escaped(a + b) =~= escaped(a) + escaped(b));
    }
}

/// A character that markup uses is named in it, and a character that it can hold stands for
/// itself.
pub proof fn characters_in_markup(c: char)
    ensures
        escaped(seq!['&']) == "&amp;"@,
        escaped(seq!['<']) == "&lt;"@,
        escaped(seq!['>']) == "&gt;"@,
        escaped(seq!['\'']) == "&apos;"@,
        escaped(seq!['"']) == "&quot;"@,
        c as u32 >= 0xa0 || (0x20 <= c as u32 <= 0x7e && c != '&' && c != '<' && c != '>' && c
            != '\'' && c != '"') || c == '\n' || c == '\r' || c == '\t' ==> escaped(seq![c])
            == seq![c],
{
    one_character('&');
    one_character('<');
    one_character('>');
    one_character('\'');
    one_character('"');
    one_character(c);
}

proof fn one_character(c: char)
    ensures
        escaped(seq![c]) == escaped_char(c),
{
    assert(seq![c].drop_last() =~= seq![]);
    assert(escaped(seq![c].drop_last()) =~= seq![]);
    assert(escaped(seq![c]) =~= escaped_char(c));
}

/// Text that holds only characters that stand for themselves is its own markup.
pub proof fn plain_text_is_its_markup(s: Seq<char>)
    requires
        forall|i: int|
            0 <= i < s.len() ==> 0x20 <= (#[trigger] s[i]) as u32 <= 0x7e && s[i] != '&' && s[i]
                != '<' && s[i] != '>' && s[i] != '\'' && s[i] != '"',
    ensures
        escaped(s) == s,
    decreases s.len(),
{
    if s.len() > 0 {
        plain_text_is_its_markup(s.drop_last());
        assert(s[s.len() - 1] == s.last());
        assert(escaped_char(s.last()) =~= seq![s.last()]);
        assert(s =~= s.drop_last() + seq![s.last()]);
    } else {
        assert(escaped(s) =~= s);
    }
}

// ── Prose ─────────────────────────────────────────────────────────────────────

/// Whether no code block opens among the pieces.
pub open spec fn is_prose(events: Seq<MdEventView>) -> bool {
    forall|i: int| 0 <= i < events.len() ==> !(#[trigger] events[i] is OpenCode)
}

/// The markup of prose, before white space at its end is taken off.
pub open spec fn markup_of(events: Seq<MdEventView>) -> Seq<char> {
    md_after(md_start(), events).prose
}

proof fn reading_on(m: MdView, a: Seq<MdEventView>, b: Seq<MdEventView>)
    ensures
        md_after(m, a + b) == md_after(md_after(m, a), b),
    decreases b.len(),
{
    if b.len() == 0 {
        assert(a + b =~= a);
    } else {
        reading_on(m, a, b.drop_last());
        assert((a + b).drop_last() =~= a + b.drop_last());
    }
}

proof fn prose_is_put_behind(m: MdView, events: Seq<MdEventView>)
    requires
        m.code is None,
        is_prose(events),
    ensures
        md_after(m, events) == (MdView { prose: m.prose + markup_of(events), ..m }),
        markup_of(events) == md_after(md_start(), events).prose,
    decreases events.len(),
{
    if events.len() == 0 {
        assert(m.prose + markup_of(events) =~= m.prose);
    } else {
        let front = events.drop_last();
        assert forall|i: int| 0 <= i < front.len() implies !(#[trigger] front[i] is OpenCode) by {
            assert(front[i] == events[i]);
        }
        prose_is_put_behind(m, front);
        prose_is_put_behind(md_start(), front);
        assert(Seq::<char>::empty() + markup_of(front) =~= markup_of(front));
        assert(!(events[events.len() - 1] is OpenCode));
        let e = events.last();
        let x = md_after(m, front);
        let y = md_after(md_start(), front);
        assert(md_with(x, e).prose =~= m.prose + md_with(y, e).prose);
        assert(md_with(x, e).blocks == m.blocks);
        assert(md_with(x, e).code is None);
    }
}

/// The markup of prose is that of its pieces, one behind the other.
pub proof fn prose_adds_up(a: Seq<MdEventView>, b: Seq<MdEventView>)
    requires
        is_prose(a),
        is_prose(b),
    ensures
        markup_of(a + b) == markup_of(a) + markup_of(b),
        is_prose(a + b),
{
    reading_on(md_start(), a, b);
    prose_is_put_behind(md_start(), a);
    prose_is_put_behind(md_after(md_start(), a), b);
    assert(Seq::<char>::empty() + markup_of(a) =~= markup_of(a));
}

proof fn one_piece(e: MdEventView)
    requires
        !(e is OpenCode),
    ensures
        is_prose(seq![e]),
        markup_of(seq![e]) == md_with(md_start(), e).prose,
{
    assert(seq![e].drop_last() =~= seq![]);
    assert(md_after(md_start(), seq![e].drop_last()) == md_start());
}

proof fn between(open: MdEventView, inner: Seq<MdEventView>, close: MdEventView)
    requires
        is_prose(inner),
        !(open is OpenCode),
        !(close is OpenCode),
    ensures
        markup_of(seq![open] + inner + seq![close]) == md_with(md_start(), open).prose + markup_of(
            inner,
        ) + md_with(md_start(), close).prose,
        is_prose(seq![open] + inner + seq![close]),
{
    one_piece(open);
    one_piece(close);
    prose_adds_up(seq![open], inner);
    prose_adds_up(seq![open] + inner, seq![close]);
}

/// Prose makes one block, with its markup but for white space at the end; blank prose makes none.
pub proof fn prose_makes_a_block(events: Seq<MdEventView>)
    requires
        is_prose(events),
    ensures
        blank(markup_of(events)) ==> blocks_of(events).len() == 0,
        !blank(markup_of(events)) ==> blocks_of(events) == seq![
            BlockView::Prose(trimmed_end(markup_of(events))),
        ],
{
    prose_is_put_behind(md_start(), events);
    let t = markup_of(events);
    assert(Seq::<char>::empty() + t =~= t);
    let taken = trimming_the_end_takes_white(t);
    if trimmed_end(t).len() == 0 {
        assert(t =~= taken);
    } else {
        let k = trimmed_end(t).len() - 1;
        assert(t[k] == trimmed_end(t).last());
    }
    assert(!blank(t) ==> blocks_of(events) =~= seq![BlockView::Prose(trimmed_end(t))]);
}

/// Between two paragraphs stands a blank line.
pub proof fn paragraphs_stand_apart(a: Seq<MdEventView>, b: Seq<MdEventView>)
    requires
        is_prose(a),
        is_prose(b),
        markup_of(b).len() > 0,
        !is_white(markup_of(b).last()),
    ensures
        blocks_of(
            a + seq![MdEventView::CloseParagraph] + b + seq![MdEventView::CloseParagraph],
        ) == seq![BlockView::Prose(markup_of(a) + seq!['\n', '\n'] + markup_of(b))],
{
    reveal_strlit("\n\n");
    let close = seq![MdEventView::CloseParagraph];
    one_piece(MdEventView::CloseParagraph);
    assert(markup_of(close) =~= seq!['\n', '\n']);
    prose_adds_up(a, close);
    prose_adds_up(a + close, b);
    prose_adds_up(a + close + b, close);
    let all = a + close + b + close;
    let text = markup_of(a) + seq!['\n', '\n'] + markup_of(b);
    assert(markup_of(all) =~= text + seq!['\n', '\n']);
    assert(text.last() == markup_of(b).last());
    assert(markup_of(all).drop_last() =~= text.push('\n'));
    assert(text.push('\n').drop_last() =~= text);
    assert(trimmed_end(text) == text);
    assert(trimmed_end(text.push('\n')) == text);
    assert(trimmed_end(markup_of(all)) == text);
    assert(markup_of(all)[text.len() - 1] == text.last());
    prose_makes_a_block(all);
}

/// Words are shown with their text escaped, and code inside a line between marks of its own.
pub proof fn words_are_shown(t: Seq<char>)
    ensures
        markup_of(seq![MdEventView::Words(t)]) == escaped(t),
        markup_of(seq![MdEventView::Inline(t)]) == "<tt>"@ + escaped(t) + "</tt>"@,
        markup_of(seq![MdEventView::Space]) == " "@,
        markup_of(seq![MdEventView::LineBreak]) == "\n"@,
{
    one_piece(MdEventView::Words(t));
    one_piece(MdEventView::Inline(t));
    one_piece(MdEventView::Space);
    one_piece(MdEventView::LineBreak);
    assert(Seq::<char>::empty() + escaped(t) =~= escaped(t));
    assert(Seq::<char>::empty() + ("<tt>"@ + escaped(t) + "</tt>"@) =~= "<tt>"@ + escaped(t)
        + "</tt>"@);
    assert(Seq::<char>::empty() + " "@ =~= " "@);
    assert(Seq::<char>::empty() + "\n"@ =~= "\n"@);
}

/// What is stressed stands between marks that match: bold for strong words and headings, which
/// end their line, and italics for emphasis. An item has a bullet before it and ends its line.
pub proof fn stress_is_marked(inner: Seq<MdEventView>)
    requires
        is_prose(inner),
    ensures
        markup_of(seq![MdEventView::OpenStrong] + inner + seq![MdEventView::CloseStrong]) == "<b>"@
            + markup_of(inner) + "</b>"@,
        markup_of(seq![MdEventView::OpenEmphasis] + inner + seq![MdEventView::CloseEmphasis])
            == "<i>"@ + markup_of(inner) + "</i>"@,
        markup_of(seq![MdEventView::OpenHeading] + inner + seq![MdEventView::CloseHeading])
            == "<b>"@ + markup_of(inner) + "</b>\n"@,
        markup_of(seq![MdEventView::OpenItem] + inner + seq![MdEventView::CloseItem]) == "• "@
            + markup_of(inner) + "\n"@,
{
    let none = Seq::<char>::empty();
    between(MdEventView::OpenStrong, inner, MdEventView::CloseStrong);
    between(MdEventView::OpenEmphasis, inner, MdEventView::CloseEmphasis);
    between(MdEventView::OpenHeading, inner, MdEventView::CloseHeading);
    between(MdEventView::OpenItem, inner, MdEventView::CloseItem);
    assert(none + "<b>"@ =~= "<b>"@);
    assert(none + "</b>"@ =~= "</b>"@);
    assert(none + "<i>"@ =~= "<i>"@);
    assert(none + "</i>"@ =~= "</i>"@);
    assert(none + "</b>\n"@ =~= "</b>\n"@);
    assert(none + "• "@ =~= "• "@);
    assert(none + "\n"@ =~= "\n"@);
}

// ── Code ──────────────────────────────────────────────────────────────────────

/// A code block is a block of its own between the prose before it and the prose behind it: its
/// text as it stands in the message but for one line feed at its end, and its language where the
/// message names one.
pub proof fn code_stands_by_itself(
    before: Seq<MdEventView>,
    l: Option<Seq<char>>,
    parts: Seq<Seq<char>>,
    behind: Seq<MdEventView>,
)
    requires
        is_prose(before),
        is_prose(behind),
    ensures
        ({
            let text = code_text(parts);
            blocks_of(
                before + (seq![MdEventView::OpenCode(l)] + (code_pieces(parts) + (seq![
                    MdEventView::CloseCode,
                ] + behind))),
            ) == blocks_of(before) + seq![
                BlockView::Code {
                    lang: if l matches Some(name) && name.len() > 0 {
                        l
                    } else {
                        None
                    },
                    text: if text.len() > 0 && text.last() == '\n' {
                        text.drop_last()
                    } else {
                        text
                    },
                },
            ] + blocks_of(behind)
        }),
{
    let open = seq![MdEventView::OpenCode(l)];
    let words = code_pieces(parts);
    let close = seq![MdEventView::CloseCode];
    let a = md_after(md_start(), before);
    prose_is_put_behind(md_start(), before);
    reading_on(md_start(), before, open + (words + (close + behind)));
    reading_on(a, open, words + (close + behind));
    let b = md_after(a, open);
    assert(open.drop_last() =~= seq![]);
    assert(md_after(a, open.drop_last()) == a);
    assert(b == md_with(a, MdEventView::OpenCode(l)));
    reading_on(b, words, close + behind);
    let c = md_after(b, words);
    reading_on(c, close, behind);
    let d = md_after(c, close);
    assert(close.drop_last() =~= seq![]);
    assert(md_after(c, close.drop_last()) == c);
    assert(d == md_with(c, MdEventView::CloseCode));
    crate::markdown::code_is_kept(a, l, parts);
    code_closes(b, parts);
    let text = code_text(parts);
    let block = BlockView::Code {
        lang: if l matches Some(name) && name.len() > 0 {
            l
        } else {
            None
        },
        text: if text.len() > 0 && text.last() == '\n' {
            text.drop_last()
        } else {
            text
        },
    };
    assert(d.blocks =~= blocks_of(before).push(block));
    assert(d.prose =~= seq![]);
    prose_is_put_behind(d, behind);
    prose_is_put_behind(md_start(), behind);
    let t = markup_of(behind);
    assert(d.prose + t =~= t);
    assert(Seq::<char>::empty() + t =~= t);
    let e = md_after(d, behind);
    assert(flushed(e).blocks =~= blocks_of(before) + seq![block] + blocks_of(behind));
}

proof fn code_closes(m: MdView, parts: Seq<Seq<char>>)
    requires
        m.code is Some,
    ensures
        md_after(m, code_pieces(parts)).code is Some,
        md_after(m, code_pieces(parts)).prose == m.prose,
    decreases parts.len(),
{
    let e = code_pieces(parts);
    if parts.len() > 0 {
        assert(e.drop_last() =~= code_pieces(parts.drop_last()));
        code_closes(m, parts.drop_last());
        assert(e.last() == MdEventView::Words(parts.last()));
    }
}

/// What a text in hexadecimal denotes.
pub open spec fn hexadecimal(s: Seq<char>) -> int
    decreases s.len(),
{
    if s.len() == 0 {
        0
    } else {
        hexadecimal(s.drop_last()) * 16 + (if '0' <= s.last() <= '9' {
            s.last() as int - 48
        } else {
            s.last() as int - 87
        })
    }
}

/// A character that controls a device is named in markup by its number in hexadecimal; the tabulator
/// and what ends a line stand for themselves.
pub proof fn controls_are_named(c: char) -> (digits: Seq<char>)
    requires
        1 <= c as u32 <= 0x1f || 0x7f <= c as u32 <= 0x9f,
        c != '\t' && c != '\n' && c != '\r' && c as u32 != 0x85,
    ensures
        escaped(seq![c]) == "&#x"@ + digits + seq![';'],
        0 < digits.len() <= 2,
        digits.len() == 2 ==> digits[0] != '0',
        forall|i: int|
            0 <= i < digits.len() ==> '0' <= #[trigger] digits[i] <= '9' || 'a' <= digits[i] <= 'f',
        hexadecimal(digits) == c as u32,
{
    one_character(c);
    reveal_with_fuel(hexadecimal, 3);
    let u = c as u32;
    let digits = if u < 16 {
        seq![hex_char(u as nat)]
    } else {
        seq![hex_char((u / 16) as nat), hex_char((u % 16) as nat)]
    };
    assert(escaped(seq![c]) =~= "&#x"@ + digits + seq![';']);
    if u < 16 {
        assert(digits.drop_last() =~= seq![]);
    } else {
        assert(digits.drop_last() =~= seq![hex_char((u / 16) as nat)]);
        assert(digits.drop_last().drop_last() =~= seq![]);
    }
    digits
}

} // verus!
