//! What the text primitives keep of a text, and what they read back.
use vstd::prelude::*;
use crate::number::{decimal, decimal_digits, decimal_parses_back, is_digit, padded_left,
    parsed_usize, without_plus};
use crate::search::{after_prefix, at_most, joined, occurrences, occurs_at, replaced,
    replaced_first};
use crate::split::{cut_once, index_of_char, index_of_char_is, index_of_char_is_first, lines_of,
    pieces, pieces_hold_no_separator, pieces_of_sum, word_len, words};
use crate::text::{is_white, trimmed, trimmed_end, trimmed_start};

verus! {

// ── White space ───────────────────────────────────────────────────────────────

/// Whether a text is made of white space.
pub open spec fn blank(s: Seq<char>) -> bool {
    forall|i: int| 0 <= i < s.len() ==> is_white(#[trigger] s[i])
}

/// Whether a text neither begins nor ends with white space.
pub open spec fn tight(s: Seq<char>) -> bool {
    s.len() > 0 ==> !is_white(s[0]) && !is_white(s.last())
}

/// Trimming the end of a text takes white space there, all of it, and nothing else.
pub proof fn trimming_the_end_takes_white(s: Seq<char>) -> (taken: Seq<char>)
    ensures
        s == trimmed_end(s) + taken,
        blank(taken),
        trimmed_end(s).len() > 0 ==> !is_white(trimmed_end(s).last()),
    decreases s.len(),
{
    if s.len() > 0 && is_white(s.last()) {
        let t = trimming_the_end_takes_white(s.drop_last());
        let taken = t.push(s.last());
        let x = trimmed_end(s.drop_last());
        assert((x + t).push(s.last()) =~= x + taken);
        assert(s =~= s.drop_last().push(s.last()));
        taken
    } else {
        assert(s =~= trimmed_end(s) + Seq::<char>::empty());
        Seq::empty()
    }
}

proof fn trimming_the_start_takes_white(s: Seq<char>) -> (taken: Seq<char>)
    ensures
        s == taken + trimmed_start(s),
        blank(taken),
        trimmed_start(s).len() > 0 ==> !is_white(trimmed_start(s)[0]),
    decreases s.len(),
{
    if s.len() > 0 && is_white(s[0]) {
        let t = trimming_the_start_takes_white(s.drop_first());
        let taken = seq![s[0]] + t;
        let x = trimmed_start(s.drop_first());
        assert(seq![s[0]] + (t + x) =~= taken + x);
        assert(s =~= seq![s[0]] + s.drop_first());
        assert forall|i: int| 0 <= i < taken.len() implies is_white(#[trigger] taken[i]) by {
            if i > 0 {
                assert(taken[i] == t[i - 1]);
            }
        }
        taken
    } else {
        assert(s =~= Seq::<char>::empty() + trimmed_start(s));
        Seq::empty()
    }
}

/// Trimming a text takes white space at its two ends, all of it, and nothing else.
pub proof fn trimming_takes_white(s: Seq<char>) -> (taken: (Seq<char>, Seq<char>))
    ensures
        s == taken.0 + trimmed(s) + taken.1,
        blank(taken.0),
        blank(taken.1),
        tight(trimmed(s)),
{
    let a = trimming_the_start_takes_white(s);
    let b = trimming_the_end_takes_white(trimmed_start(s));
    assert(s =~= a + trimmed(s) + b);
    if trimmed(s).len() > 0 {
        assert(trimmed(s)[0] == trimmed_start(s)[0]);
    }
    (a, b)
}

/// A tight text between white space is what trimming leaves of it.
pub proof fn trimming_finds_the_text(a: Seq<char>, s: Seq<char>, b: Seq<char>)
    requires
        blank(a),
        blank(b),
        tight(s),
    ensures
        trimmed(a + s + b) == s,
        trimmed_end(s + b) == s,
    decreases a.len() + b.len(),
{
    let all = a + s + b;
    if b.len() > 0 {
        assert(is_white(b[b.len() - 1]));
        let c = b.drop_last();
        assert((s + b).drop_last() =~= s + c);
        assert(blank(c));
        trimming_finds_the_text(seq![], s, c);
        assert(trimmed_end(s + b) == trimmed_end(s + c));
    } else {
        assert(s + b =~= s);
    }
    if a.len() > 0 {
        let c = a.drop_first();
        assert(is_white(a[0]));
        assert(all.drop_first() =~= c + s + b);
        assert forall|i: int| 0 <= i < c.len() implies is_white(#[trigger] c[i]) by {
            assert(c[i] == a[i + 1]);
        }
        trimming_finds_the_text(c, s, b);
    } else if s.len() > 0 {
        assert(all =~= s + b);
    } else {
        assert(all =~= b);
        blank_is_trimmed_away(b);
    }
}

proof fn blank_is_trimmed_away(b: Seq<char>)
    requires
        blank(b),
    ensures
        trimmed_start(b) == Seq::<char>::empty(),
    decreases b.len(),
{
    if b.len() > 0 {
        assert(is_white(b[0]));
        let c = b.drop_first();
        assert forall|i: int| 0 <= i < c.len() implies is_white(#[trigger] c[i]) by {
            assert(c[i] == b[i + 1]);
        }
        blank_is_trimmed_away(c);
    } else {
        assert(b =~= seq![]);
    }
}

// ── Pieces, lines and words ───────────────────────────────────────────────────

proof fn joined_behind(first: Seq<char>, rest: Seq<Seq<char>>, sep: Seq<char>)
    requires
        rest.len() > 0,
    ensures
        joined(seq![first] + rest, sep) == first + sep + joined(rest, sep),
    decreases rest.len(),
{
    let all = seq![first] + rest;
    if rest.len() == 1 {
        assert(all.drop_last() =~= seq![first]);
        assert(joined(seq![first], sep) == first);
        assert(all.last() == rest[0]);
        assert(joined(all, sep) =~= first + sep + joined(rest, sep));
    } else {
        joined_behind(first, rest.drop_last(), sep);
        assert(all.drop_last() =~= seq![first] + rest.drop_last());
        assert(all.last() == rest.last());
        assert(joined(rest, sep) == joined(rest.drop_last(), sep) + sep + rest.last());
        assert(joined(all, sep) =~= first + sep + joined(rest, sep));
    }
}

/// Cutting a text at a separator loses nothing but the separators.
pub proof fn pieces_join_back(s: Seq<char>, sep: char)
    ensures
        joined(pieces(s, sep), seq![sep]) == s,
    decreases s.len(),
{
    index_of_char_is_first(s, sep);
    let i = index_of_char(s, sep) as int;
    if i < s.len() {
        let rest = s.skip(i + 1);
        pieces_join_back(rest, sep);
        pieces_hold_no_separator(rest, sep);
        joined_behind(s.take(i), pieces(rest, sep), seq![sep]);
        assert(s =~= s.take(i) + seq![sep] + rest);
    }
}

/// A text is cut at the first separator: what stands before it holds none, and the two parts and
/// the separator make the text. A text without the separator is not cut.
pub proof fn cut_at_the_first(s: Seq<char>, sep: char)
    ensures
        cut_once(s, sep) matches Some((a, b)) ==> s == a + seq![sep] + b && !a.contains(sep),
        cut_once(s, sep) is None <==> !s.contains(sep),
{
    index_of_char_is_first(s, sep);
    let i = index_of_char(s, sep) as int;
    if i < s.len() {
        assert(s =~= s.take(i) + seq![sep] + s.skip(i + 1));
    }
}

/// Lines, each with a line feed behind it.
pub open spec fn ended_lines(lines: Seq<Seq<char>>) -> Seq<char>
    decreases lines.len(),
{
    if lines.len() == 0 {
        seq![]
    } else {
        ended_lines(lines.drop_last()) + lines.last().push('\n')
    }
}

/// Whether a text can be a line: it holds no line feed and does not end in a carriage return.
pub open spec fn is_line(l: Seq<char>) -> bool {
    !l.contains('\n') && (l.len() > 0 ==> l.last() != '\r')
}

/// The pieces of ended lines are the lines and, behind them, what stands behind the last one.
pub proof fn pieces_of_ended_lines(lines: Seq<Seq<char>>, rest: Seq<char>)
    requires
        forall|i: int| 0 <= i < lines.len() ==> !(#[trigger] lines[i]).contains('\n'),
        !rest.contains('\n'),
    ensures
        pieces(ended_lines(lines) + rest, '\n') == lines.push(rest),
    decreases lines.len(),
{
    let s = ended_lines(lines);
    if lines.len() == 0 {
        assert(s + rest =~= rest);
        index_of_char_is(rest, '\n', rest.len() as int);
        assert(pieces(rest, '\n') =~= lines.push(rest));
    } else {
        let front = lines.drop_last();
        let last = lines.last();
        assert(!lines[lines.len() - 1].contains('\n'));
        pieces_of_ended_lines(front, seq![]);
        let a = ended_lines(front);
        assert(a + Seq::<char>::empty() =~= a);
        let b = last.push('\n') + rest;
        assert(s + rest =~= a + b);
        pieces_of_sum(a, b, '\n');
        assert(Seq::<char>::empty() + b =~= b);
        index_of_char_is(b, '\n', last.len() as int);
        assert(b.take(last.len() as int) =~= last);
        assert(b.skip(last.len() as int + 1) =~= rest);
        index_of_char_is(rest, '\n', rest.len() as int);
        assert(pieces(rest, '\n') =~= seq![rest]);
        assert(pieces(b, '\n') =~= seq![last] + pieces(rest, '\n'));
        assert(pieces(b, '\n') =~= seq![last, rest]);
        assert(front.push(seq![]).drop_last() =~= front);
        assert(lines.push(rest) =~= front + seq![last, rest]);
    }
}

/// Lines that were written one below the other are read back; the last one may lack its end.
pub proof fn lines_are_read_back(lines: Seq<Seq<char>>, rest: Seq<char>)
    requires
        forall|i: int| 0 <= i < lines.len() ==> is_line(#[trigger] lines[i]),
        !rest.contains('\n'),
    ensures
        lines_of(ended_lines(lines) + rest) == if rest.len() == 0 {
            lines
        } else {
            lines.push(rest)
        },
{
    pieces_of_ended_lines(lines, rest);
    let parts = lines.push(rest);
    assert(parts.drop_last() =~= lines);
    assert(parts.drop_last().map_values(|p: Seq<char>| crate::split::without_cr(p)) =~= lines);
}

/// Whether a text can be a word: it is not empty and holds no white space.
pub open spec fn is_word(w: Seq<char>) -> bool {
    w.len() > 0 && forall|i: int| 0 <= i < w.len() ==> !is_white(#[trigger] w[i])
}

/// The length of a word that ends, or has white space behind it.
proof fn word_len_is(s: Seq<char>, n: int)
    requires
        0 <= n <= s.len(),
        forall|i: int| 0 <= i < n ==> !is_white(#[trigger] s[i]),
        n < s.len() ==> is_white(s[n]),
    ensures
        word_len(s) == n,
    decreases n,
{
    if n > 0 {
        let t = s.drop_first();
        assert forall|i: int| 0 <= i < n - 1 implies !is_white(#[trigger] t[i]) by {
            assert(t[i] == s[i + 1]);
        }
        word_len_is(t, n - 1);
    }
}

/// The first word of a text that begins with one, and the words behind it.
pub proof fn first_word(w: Seq<char>, rest: Seq<char>)
    requires
        is_word(w),
        rest.len() > 0 ==> is_white(rest[0]),
    ensures
        words(w + rest) == seq![w] + words(rest),
{
    let s = w + rest;
    assert(s[0] == w[0]);
    assert forall|i: int| 0 <= i < w.len() implies !is_white(#[trigger] s[i]) by {
        assert(s[i] == w[i]);
    }
    word_len_is(s, w.len() as int);
    assert(trimmed_start(s) == s);
    assert(s.take(w.len() as int) =~= w);
    assert(s.skip(w.len() as int) =~= rest);
}

/// White space before a text has no words.
pub proof fn words_behind_white(c: char, rest: Seq<char>)
    requires
        is_white(c),
    ensures
        words(seq![c] + rest) == words(rest),
{
    let s = seq![c] + rest;
    assert(s.drop_first() =~= rest);
    assert(trimmed_start(s) == trimmed_start(rest));
}

/// Words with a space between each two are read back.
pub proof fn words_are_read_back(ws: Seq<Seq<char>>)
    requires
        forall|i: int| 0 <= i < ws.len() ==> is_word(#[trigger] ws[i]),
    ensures
        words(joined(ws, " "@)) == ws,
    decreases ws.len(),
{
    reveal_strlit(" ");
    if ws.len() == 0 {
        assert(trimmed_start(Seq::<char>::empty()) =~= seq![]);
        assert(words(joined(ws, " "@)) =~= ws);
    } else {
        let rest = ws.drop_first();
        assert(is_word(ws[0]));
        assert forall|i: int| 0 <= i < rest.len() implies is_word(#[trigger] rest[i]) by {
            assert(rest[i] == ws[i + 1]);
        }
        words_are_read_back(rest);
        if rest.len() == 0 {
            assert(ws[0] + Seq::<char>::empty() =~= ws[0]);
            first_word(ws[0], seq![]);
            assert(words(seq![]) =~= seq![]) by {
                assert(trimmed_start(Seq::<char>::empty()) =~= seq![]);
            }
            assert(words(joined(ws, " "@)) =~= ws);
        } else {
            assert(ws =~= seq![ws[0]] + rest);
            joined_behind(ws[0], rest, " "@);
            let tail = seq![' '] + joined(rest, " "@);
            assert(joined(ws, " "@) =~= ws[0] + tail);
            first_word(ws[0], tail);
            words_behind_white(' ', joined(rest, " "@));
        }
    }
}

// ── Replacing ─────────────────────────────────────────────────────────────────

/// Where `p` stands for the first time behind `a`, replacing it leaves `a` and all that stands
/// behind it; replacing every occurrence goes on behind it; counting counts it.
pub proof fn replacing_goes_from_the_left(
    a: Seq<char>,
    p: Seq<char>,
    b: Seq<char>,
    new: Seq<char>,
)
    requires
        p.len() > 0,
        forall|i: int| 0 <= i < a.len() ==> !#[trigger] occurs_at(a + p + b, p, i),
    ensures
        replaced_first(a + p + b, p, new) == a + new + b,
        replaced(a + p + b, p, new) == a + new + replaced(b, p, new),
        occurrences(a + p + b, p) == 1 + occurrences(b, p),
    decreases a.len(),
{
    let s = a + p + b;
    if a.len() == 0 {
        assert(s =~= p + b);
        assert(p.is_prefix_of(s)) by {
            assert(s.subrange(0, p.len() as int) =~= p);
        }
        assert(s.skip(p.len() as int) =~= b);
        assert(a + new + b =~= new + b);
        assert(a + new + replaced(b, p, new) =~= new + replaced(b, p, new));
    } else {
        let c = a.drop_first();
        let t = s.drop_first();
        assert(t =~= c + p + b);
        assert(!occurs_at(s, p, 0));
        assert(!p.is_prefix_of(s)) by {
            if p.is_prefix_of(s) {
                assert(s.subrange(0, p.len() as int) =~= p);
            }
        }
        assert forall|i: int| 0 <= i < c.len() implies !#[trigger] occurs_at(c + p + b, p, i) by {
            assert(!occurs_at(s, p, i + 1));
            assert(t.subrange(i, i + p.len()) =~= s.subrange(i + 1, i + 1 + p.len()));
        }
        replacing_goes_from_the_left(c, p, b, new);
        assert(seq![a[0]] + (c + new + b) =~= a + new + b);
        assert(seq![a[0]] + (c + new + replaced(b, p, new)) =~= a + new + replaced(b, p, new));
    }
}

// ── Numbers ───────────────────────────────────────────────────────────────────

/// A number of more than one digit is written with its last digit behind the others; one of one
/// digit is that digit, counted from `0`.
pub proof fn decimals_end_with_the_unit(n: nat, digit: nat)
    requires
        digit < 10,
    ensures
        n > 0 ==> decimal(10 * n + digit) == decimal(n) + decimal(digit),
        decimal(digit).len() == 1,
        decimal(digit)[0] as u32 == '0' as u32 + digit,
{
    if n > 0 {
        assert((10 * n + digit) / 10 == n);
        assert((10 * n + digit) % 10 == digit);
        assert(decimal(10 * n + digit) =~= decimal(n) + decimal(digit));
    }
}

/// A padded text has the width that was asked for, or is the text where that is longer; what was
/// put before it are spaces.
pub proof fn padding_keeps_the_text(s: Seq<char>, width: nat) -> (spaces: Seq<char>)
    ensures
        padded_left(s, width) == spaces + s,
        forall|i: int| 0 <= i < spaces.len() ==> spaces[i] == ' ',
        padded_left(s, width).len() == if s.len() >= width {
            s.len()
        } else {
            width
        },
    decreases width - s.len(),
{
    if s.len() >= width {
        assert(s =~= Seq::<char>::empty() + s);
        Seq::empty()
    } else {
        let t = padding_keeps_the_text(seq![' '] + s, width);
        assert(t + (seq![' '] + s) =~= t.push(' ') + s);
        t.push(' ')
    }
}

/// What stands behind an opening is what was put there, and a text that opens otherwise has none.
pub proof fn an_opening_is_taken_off(p: Seq<char>, s: Seq<char>, n: nat)
    ensures
        after_prefix(p + s, p) == Some(s),
        after_prefix(s, p) matches Some(rest) ==> s == p + rest,
        n < p.len() ==> after_prefix(p.take(n as int), p) is None,
        at_most(s, n as int).is_prefix_of(s),
        at_most(s, n as int).len() == (if s.len() < n {
            s.len()
        } else {
            n
        }),
{
    assert((p + s).skip(p.len() as int) =~= s);
    if p.is_prefix_of(s) {
        assert(s =~= p + s.skip(p.len() as int));
    }
}

/// A carriage return before the end of a line belongs to that end, and not to the line.
pub proof fn a_carriage_return_ends_the_line(line: Seq<char>)
    requires
        !line.contains('\n'),
    ensures
        lines_of(line + seq!['\r', '\n']) == seq![line],
{
    let s = line + seq!['\r', '\n'];
    let a = line.push('\r');
    let n = a.len() as int;
    assert forall|i: int| 0 <= i < n implies s[i] != '\n' by {
        if i < line.len() {
            assert(s[i] == line[i]);
            assert(line.contains(line[i]));
        }
    }
    index_of_char_is(s, '\n', n);
    assert(s.take(n) =~= a);
    assert(s.skip(n + 1) =~= seq![]);
    reveal_with_fuel(pieces, 2);
    assert(pieces(s, '\n') =~= seq![a, seq![]]);
    assert(pieces(s, '\n').drop_last() =~= seq![a]);
    assert(a.drop_last() =~= line);
    assert(lines_of(s) =~= seq![line]);
}

/// A number is read with or without a plus sign before its digits; a text that is empty or holds
/// anything else is none.
pub proof fn numbers_are_read(n: nat, s: Seq<char>, i: int)
    requires
        n <= usize::MAX,
        0 <= i < s.len(),
        s[i] != '+' || i > 0,
        !('0' <= s[i] <= '9'),
    ensures
        parsed_usize(decimal(n)) == Some(n),
        parsed_usize(seq!['+'] + decimal(n)) == Some(n),
        parsed_usize(s) is None,
        parsed_usize(seq![]) is None,
        parsed_usize(seq!['+']) is None,
{
    decimal_parses_back(n);
    decimal_digits(n);
    assert((seq!['+'] + decimal(n)).skip(1) =~= decimal(n));
    assert(seq!['+'].skip(1) =~= seq![]);
    let d = without_plus(s);
    if s[0] == '+' {
        assert(d[i - 1] == s[i]);
        is_no_digit(d[i - 1]);
    } else {
        assert(d[i] == s[i]);
        is_no_digit(d[i]);
    }
}

proof fn is_no_digit(c: char)
    requires
        !('0' <= c <= '9'),
    ensures
        !is_digit(c),
{
}

/// White space are the spaces of every width, the tabulators, and what ends a line, a page or a
/// paragraph; nothing that can be seen is.
pub proof fn what_is_white(c: char)
    ensures
        is_white(c) <==> (c == ' ' || c == '\t' || c == '\n' || c == '\u{b}' || c == '\u{c}' || c
            == '\r' || c == '\u{85}' || c == '\u{a0}' || c == '\u{1680}' || '\u{2000}' <= c
            <= '\u{200a}' || c == '\u{2028}' || c == '\u{2029}' || c == '\u{202f}' || c
            == '\u{205f}' || c == '\u{3000}'),
{
}

} // verus!
