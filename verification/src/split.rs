//! Cutting text into pieces: by a separator, by line, by word.
use vstd::prelude::*;
use crate::text::{chars_of, is_white, is_white_space, string_of, trimmed_start, views};

verus! {

// ── By a separator ────────────────────────────────────────────────────────────

/// The index of the first `c` in `s`, or the length of `s` where there is none.
pub open spec fn index_of_char(s: Seq<char>, c: char) -> nat
    decreases s.len(),
{
    if s.len() == 0 || s[0] == c {
        0
    } else {
        1 + index_of_char(s.drop_first(), c)
    }
}

/// The pieces of `s` between the occurrences of `sep`: one more than there are occurrences.
pub open spec fn pieces(s: Seq<char>, sep: char) -> Seq<Seq<char>>
    decreases s.len(),
{
    let i = index_of_char(s, sep) as int;
    if 0 <= i < s.len() {
        seq![s.take(i)] + pieces(s.skip(i + 1), sep)
    } else {
        seq![s]
    }
}

/// `index_of_char` finds the first occurrence.
pub proof fn index_of_char_is_first(s: Seq<char>, c: char)
    ensures
        index_of_char(s, c) <= s.len(),
        index_of_char(s, c) < s.len() ==> s[index_of_char(s, c) as int] == c,
        forall|j: int| 0 <= j < index_of_char(s, c) ==> s[j] != c,
        index_of_char(s, c) == s.len() <==> !s.contains(c),
    decreases s.len(),
{
    if s.len() > 0 && s[0] != c {
        let t = s.drop_first();
        index_of_char_is_first(t, c);
        assert forall|j: int| 0 <= j < index_of_char(s, c) implies s[j] != c by {
            if j > 0 {
                assert(t[j - 1] == s[j]);
            }
        }
        if s.contains(c) {
            let k = choose|k: int| 0 <= k < s.len() && s[k] == c;
            assert(t[k - 1] == c);
        }
        if index_of_char(s, c) < s.len() {
            assert(s[index_of_char(s, c) as int] == c);
        }
    } else if s.len() > 0 {
        assert(s[0] == c);
    }
}

/// The position that holds the first `c` is the one that `index_of_char` names.
pub proof fn index_of_char_is(s: Seq<char>, c: char, i: int)
    requires
        0 <= i <= s.len(),
        forall|j: int| 0 <= j < i ==> s[j] != c,
        i < s.len() ==> s[i] == c,
    ensures
        index_of_char(s, c) == i,
{
    index_of_char_is_first(s, c);
    let k = index_of_char(s, c) as int;
    if k < i {
        assert(s[k] == c);
    }
    if i < k {
        assert(s[i] != c);
    }
}

/// There is always at least one piece, and no piece holds the separator.
pub proof fn pieces_hold_no_separator(s: Seq<char>, sep: char)
    ensures
        pieces(s, sep).len() >= 1,
        forall|i: int| 0 <= i < pieces(s, sep).len() ==> !(#[trigger] pieces(s, sep)[i]).contains(
            sep,
        ),
    decreases s.len(),
{
    index_of_char_is_first(s, sep);
    let i = index_of_char(s, sep) as int;
    if i < s.len() {
        pieces_hold_no_separator(s.skip(i + 1), sep);
        assert(!s.take(i).contains(sep));
    }
}

/// Cutting `a + b`: the pieces of `a` but its last, and then the pieces of that last one with `b`
/// behind it.
pub proof fn pieces_of_sum(a: Seq<char>, b: Seq<char>, sep: char)
    ensures
        pieces(a + b, sep) == pieces(a, sep).drop_last() + pieces(pieces(a, sep).last() + b, sep),
    decreases a.len(),
{
    index_of_char_is_first(a, sep);
    let i = index_of_char(a, sep) as int;
    if i < a.len() {
        let rest = a.skip(i + 1);
        pieces_of_sum(rest, b, sep);
        pieces_hold_no_separator(rest, sep);
        index_of_char_is(a + b, sep, i);
        assert((a + b).take(i) =~= a.take(i));
        assert((a + b).skip(i + 1) =~= rest + b);
        let pa = pieces(a, sep);
        let pr = pieces(rest, sep);
        assert(pa =~= seq![a.take(i)] + pr);
        assert(pa.last() == pr.last());
        assert(pa.drop_last() =~= seq![a.take(i)] + pr.drop_last());
        assert(pieces(a + b, sep) =~= seq![a.take(i)] + pieces(rest + b, sep));
        assert(pieces(a + b, sep) =~= pa.drop_last() + pieces(pa.last() + b, sep));
    } else {
        assert(pieces(a, sep) =~= seq![a]);
        assert(pieces(a, sep).drop_last() =~= seq![]);
        assert(seq![] + pieces(a + b, sep) =~= pieces(a + b, sep));
    }
}

/// The index of the first `c` in `chars[from..]`, or the length where there is none.
pub fn find_char(chars: &Vec<char>, from: usize, c: char) -> (r: usize)
    requires
        from <= chars.len(),
    ensures
        from <= r <= chars.len(),
        r == from + index_of_char(chars@.skip(from as int), c),
        forall|j: int| from <= j < r ==> chars@[j] != c,
        r < chars.len() ==> chars@[r as int] == c,
{
    let mut i: usize = from;
    while i < chars.len() && chars[i] != c
        invariant
            from <= i <= chars.len(),
            forall|j: int| from <= j < i ==> chars@[j] != c,
        decreases chars.len() - i,
    {
        i = i + 1;
    }
    proof {
        let t = chars@.skip(from as int);
        assert forall|j: int| 0 <= j < i - from implies t[j] != c by {
            assert(t[j] == chars@[j + from]);
        }
        index_of_char_is(t, c, i - from);
    }
    i
}

/// The pieces of `s` between the occurrences of `sep`.
pub fn split_char(s: &str, sep: char) -> (r: Vec<String>)
    ensures
        views(r@) == pieces(s@, sep),
{
    let chars = chars_of(s);
    let mut out: Vec<String> = Vec::new();
    let mut start: usize = 0;
    assert(chars@.skip(0) =~= s@);
    assert(views(out@) + pieces(s@, sep) =~= pieces(s@, sep));
    loop
        invariant
            start <= chars.len(),
            chars@ == s@,
            views(out@) + pieces(chars@.skip(start as int), sep) == pieces(s@, sep),
        decreases chars.len() - start,
    {
        let ghost rest = chars@.skip(start as int);
        let end = find_char(&chars, start, sep);
        let piece = string_of(&chars, start, end);
        let ghost before = out@;
        out.push(piece);
        assert(piece@ =~= rest.take(end - start));
        assert(views(out@) =~= views(before).push(piece@));
        if end == chars.len() {
            assert(piece@ =~= rest);
            assert(views(out@) =~= views(before) + pieces(rest, sep));
            return out;
        }
        assert(rest.skip(end - start + 1) =~= chars@.skip(end + 1));
        assert(views(out@) + pieces(chars@.skip(end + 1), sep) =~= views(before) + pieces(rest, sep));
        start = end + 1;
    }
}

/// `s` cut at the first `sep`: what stands before it and what stands behind it.
pub open spec fn cut_once(s: Seq<char>, sep: char) -> Option<(Seq<char>, Seq<char>)> {
    let i = index_of_char(s, sep) as int;
    if i < s.len() {
        Some((s.take(i), s.skip(i + 1)))
    } else {
        None
    }
}

/// `s` cut at the first `sep`, where there is one.
pub fn split_once(s: &str, sep: char) -> (r: Option<(String, String)>)
    ensures
        r is Some <==> cut_once(s@, sep) is Some,
        r matches Some(p) ==> cut_once(s@, sep) == Some((p.0@, p.1@)),
{
    let chars = chars_of(s);
    assert(chars@.skip(0) =~= s@);
    let i = find_char(&chars, 0, sep);
    if i < chars.len() {
        let a = string_of(&chars, 0, i);
        let b = string_of(&chars, i + 1, chars.len());
        assert(a@ =~= s@.take(i as int));
        assert(b@ =~= s@.skip(i + 1));
        Some((a, b))
    } else {
        None
    }
}

// ── By line ───────────────────────────────────────────────────────────────────

/// A line without the carriage return that stands before its line feed.
pub open spec fn without_cr(s: Seq<char>) -> Seq<char> {
    if s.len() > 0 && s.last() == '\r' {
        s.drop_last()
    } else {
        s
    }
}

/// The lines of `s`. A line ends at a line feed, with or without a carriage return before it;
/// the text behind the last line feed is a line of its own unless it is empty.
pub open spec fn lines_of(s: Seq<char>) -> Seq<Seq<char>> {
    let parts = pieces(s, '\n');
    let closed = parts.drop_last().map_values(|p: Seq<char>| without_cr(p));
    if parts.last().len() == 0 {
        closed
    } else {
        closed.push(parts.last())
    }
}

/// The lines of `s`.
pub fn lines(s: &str) -> (r: Vec<String>)
    ensures
        views(r@) == lines_of(s@),
{
    let parts = split_char(s, '\n');
    proof {
        pieces_hold_no_separator(s@, '\n');
    }
    let ghost ps = pieces(s@, '\n');
    let ghost want = ps.drop_last().map_values(|p: Seq<char>| without_cr(p));
    assert(parts@.len() == ps.len());
    let mut out: Vec<String> = Vec::new();
    let mut i: usize = 0;
    while i + 1 < parts.len()
        invariant
            views(parts@) == ps,
            parts@.len() == ps.len(),
            ps.len() >= 1,
            i < parts.len(),
            want == ps.drop_last().map_values(|p: Seq<char>| without_cr(p)),
            views(out@) == want.take(i as int),
        decreases parts.len() - i,
    {
        assert(parts@[i as int]@ == ps[i as int]);
        let chars = chars_of(parts[i].as_str());
        let n = chars.len();
        let end: usize = if n > 0 && chars[n - 1] == '\r' {
            n - 1
        } else {
            n
        };
        let line = string_of(&chars, 0, end);
        assert(line@ =~= without_cr(ps[i as int]));
        assert(want[i as int] == without_cr(ps[i as int]));
        let ghost before = out@;
        out.push(line);
        assert(views(out@) =~= views(before).push(line@));
        assert(want.take(i + 1) =~= want.take(i as int).push(line@));
        i = i + 1;
    }
    assert(want.take(i as int) =~= want);
    assert(parts@[i as int]@ == ps.last());
    let last = chars_of(parts[i].as_str());
    if last.len() > 0 {
        let line = string_of(&last, 0, last.len());
        assert(line@ =~= ps.last());
        let ghost before = out@;
        out.push(line);
        assert(views(out@) =~= views(before).push(line@));
    }
    out
}

// ── By word ───────────────────────────────────────────────────────────────────

/// The length of the run of characters at the front of `s` that are not white space.
pub open spec fn word_len(s: Seq<char>) -> nat
    decreases s.len(),
{
    if s.len() == 0 || is_white(s[0]) {
        0
    } else {
        1 + word_len(s.drop_first())
    }
}

/// `trimmed_start` does not lengthen a text.
pub proof fn trimmed_start_len(s: Seq<char>)
    ensures
        trimmed_start(s).len() <= s.len(),
        trimmed_start(s).len() > 0 ==> !is_white(trimmed_start(s)[0]),
    decreases s.len(),
{
    if s.len() > 0 && is_white(s[0]) {
        trimmed_start_len(s.drop_first());
    }
}

/// A word is no longer than the text that it opens.
pub proof fn word_len_bound(s: Seq<char>)
    ensures
        word_len(s) <= s.len(),
        s.len() > 0 && !is_white(s[0]) ==> word_len(s) > 0,
    decreases s.len(),
{
    if s.len() > 0 && !is_white(s[0]) {
        word_len_bound(s.drop_first());
    }
}

/// The words of `s`: its longest runs of characters that are not white space.
pub open spec fn words(s: Seq<char>) -> Seq<Seq<char>>
    decreases s.len(),
{
    let t = trimmed_start(s);
    if t.len() == 0 {
        seq![]
    } else {
        let n = word_len(t) as int;
        proof {
            trimmed_start_len(s);
            word_len_bound(t);
        }
        seq![t.take(n)] + words(t.skip(n))
    }
}

/// The words of `s`.
pub fn split_words(s: &str) -> (r: Vec<String>)
    ensures
        views(r@) == words(s@),
{
    let chars = chars_of(s);
    let n = chars.len();
    let mut out: Vec<String> = Vec::new();
    let mut i: usize = 0;
    assert(chars@.skip(0) =~= s@);
    assert(views(out@) + words(s@) =~= words(s@));
    loop
        invariant
            i <= n == chars.len(),
            views(out@) + words(chars@.skip(i as int)) == words(s@),
        decreases n - i,
    {
        let ghost rest = chars@.skip(i as int);
        let mut a: usize = i;
        while a < n && is_white_space(chars[a])
            invariant
                i <= a <= n == chars.len(),
                trimmed_start(rest) == trimmed_start(chars@.skip(a as int)),
            decreases n - a,
        {
            assert(chars@.skip(a as int).drop_first() =~= chars@.skip(a + 1));
            a = a + 1;
        }
        let ghost t = chars@.skip(a as int);
        assert(trimmed_start(rest) == t);
        if a == n {
            assert(words(rest) =~= seq![]);
            assert(views(out@) =~= words(s@));
            return out;
        }
        let mut b: usize = a;
        while b < n && !is_white_space(chars[b])
            invariant
                a <= b <= n == chars.len(),
                word_len(t) == (b - a) + word_len(chars@.skip(b as int)),
            decreases n - b,
        {
            assert(chars@.skip(b as int).drop_first() =~= chars@.skip(b + 1));
            b = b + 1;
        }
        let word = string_of(&chars, a, b);
        proof {
            word_len_bound(t);
        }
        assert(word@ =~= t.take(b - a));
        assert(t.skip(b - a) =~= chars@.skip(b as int));
        let ghost before = out@;
        out.push(word);
        assert(views(out@) =~= views(before).push(word@));
        assert(views(out@) + words(chars@.skip(b as int)) =~= views(before) + words(rest));
        i = b;
    }
}

} // verus!
