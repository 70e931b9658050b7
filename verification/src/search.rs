//! Finding, counting and replacing text inside text, and joining pieces.
use vstd::prelude::*;
use crate::text::{chars_of, string_of, views};

verus! {

// ── Prefixes and occurrences ──────────────────────────────────────────────────

/// Whether `p` stands in `s` at position `i`.
pub open spec fn occurs_at(s: Seq<char>, p: Seq<char>, i: int) -> bool {
    0 <= i && i + p.len() <= s.len() && s.subrange(i, i + p.len()) == p
}

/// Whether `p` stands somewhere in `s`.
pub open spec fn occurs_in(s: Seq<char>, p: Seq<char>) -> bool {
    exists|i: int| occurs_at(s, p, i)
}

/// Whether `p` stands in `s` at position `i`.
pub fn matches_at(s: &Vec<char>, i: usize, p: &Vec<char>) -> (r: bool)
    requires
        i <= s.len(),
    ensures
        r == occurs_at(s@, p@, i as int),
        r == p@.is_prefix_of(s@.skip(i as int)),
{
    if p.len() > s.len() - i {
        return false;
    }
    let mut k: usize = 0;
    while k < p.len()
        invariant
            k <= p.len() <= s.len() - i,
            i <= s.len(),
            forall|j: int| 0 <= j < k ==> s@[i + j] == p@[j],
        decreases p.len() - k,
    {
        if s[i + k] != p[k] {
            proof {
                assert(s@.skip(i as int)[k as int] != p@[k as int]);
                assert(s@.subrange(i as int, i + p@.len())[k as int] != p@[k as int]);
                if p@.is_prefix_of(s@.skip(i as int)) {
                    assert(s@.skip(i as int).subrange(0, p@.len() as int)[k as int]
                        == p@[k as int]);
                }
            }
            return false;
        }
        k = k + 1;
    }
    assert(s@.subrange(i as int, i + p@.len()) =~= p@);
    assert(s@.skip(i as int).subrange(0, p@.len() as int) =~= p@);
    true
}

/// Whether `s` opens with `p`.
pub fn starts_with(s: &str, p: &str) -> (r: bool)
    ensures
        r == p@.is_prefix_of(s@),
{
    let a = chars_of(s);
    let b = chars_of(p);
    assert(a@.skip(0) =~= a@);
    matches_at(&a, 0, &b)
}

/// What stands behind `p` in `s`, where `s` opens with `p`.
pub open spec fn after_prefix(s: Seq<char>, p: Seq<char>) -> Option<Seq<char>> {
    if p.is_prefix_of(s) {
        Some(s.skip(p.len() as int))
    } else {
        None
    }
}

/// What stands behind `p` in `s`, where `s` opens with `p`.
pub fn strip_prefix(s: &str, p: &str) -> (r: Option<String>)
    ensures
        r is Some <==> p@.is_prefix_of(s@),
        r matches Some(t) ==> t@ == s@.skip(p@.len() as int),
{
    let a = chars_of(s);
    let b = chars_of(p);
    assert(a@.skip(0) =~= a@);
    if matches_at(&a, 0, &b) {
        let t = string_of(&a, b.len(), a.len());
        assert(t@ =~= s@.skip(p@.len() as int));
        Some(t)
    } else {
        None
    }
}

/// Whether `p` stands somewhere in `s`.
pub fn contains(s: &str, p: &str) -> (r: bool)
    ensures
        r == occurs_in(s@, p@),
{
    let a = chars_of(s);
    let b = chars_of(p);
    let mut i: usize = 0;
    while i < a.len()
        invariant
            i <= a.len(),
            a@ == s@,
            b@ == p@,
            forall|j: int| 0 <= j < i ==> !occurs_at(s@, p@, j),
        decreases a.len() - i,
    {
        if matches_at(&a, i, &b) {
            return true;
        }
        i = i + 1;
    }
    let r = matches_at(&a, i, &b);
    r
}

// ── Replacing ─────────────────────────────────────────────────────────────────

/// `s` with `new` put before each character and at the end.
pub open spec fn interleaved(s: Seq<char>, new: Seq<char>) -> Seq<char>
    decreases s.len(),
{
    if s.len() == 0 {
        new
    } else {
        new + seq![s[0]] + interleaved(s.drop_first(), new)
    }
}

/// `s` with every occurrence of `p` replaced by `new`, found from the left and without overlap.
/// An empty `p` stands before each character and at the end.
pub open spec fn replaced(s: Seq<char>, p: Seq<char>, new: Seq<char>) -> Seq<char>
    decreases s.len(),
{
    if p.len() == 0 {
        interleaved(s, new)
    } else if s.len() < p.len() {
        s
    } else if p.is_prefix_of(s) {
        new + replaced(s.skip(p.len() as int), p, new)
    } else {
        seq![s[0]] + replaced(s.drop_first(), p, new)
    }
}

/// `s` with the first occurrence of `p`, if any, replaced by `new`.
pub open spec fn replaced_first(s: Seq<char>, p: Seq<char>, new: Seq<char>) -> Seq<char>
    decreases s.len(),
{
    if p.is_prefix_of(s) {
        new + s.skip(p.len() as int)
    } else if s.len() == 0 {
        s
    } else {
        seq![s[0]] + replaced_first(s.drop_first(), p, new)
    }
}

/// How many times `p` occurs in `s`, found from the left and without overlap. An empty `p`
/// occurs before each character and at the end.
pub open spec fn occurrences(s: Seq<char>, p: Seq<char>) -> nat
    decreases s.len(),
{
    if p.len() == 0 {
        s.len() + 1
    } else if s.len() < p.len() {
        0
    } else if p.is_prefix_of(s) {
        1 + occurrences(s.skip(p.len() as int), p)
    } else {
        occurrences(s.drop_first(), p)
    }
}

/// `p` occurs no more often than there are positions for it.
pub proof fn occurrences_bound(s: Seq<char>, p: Seq<char>)
    ensures
        occurrences(s, p) <= s.len() + 1,
        p.len() > 0 ==> occurrences(s, p) <= s.len(),
    decreases s.len(),
{
    if p.len() == 0 || s.len() < p.len() {
    } else if p.is_prefix_of(s) {
        occurrences_bound(s.skip(p.len() as int), p);
    } else {
        occurrences_bound(s.drop_first(), p);
    }
}

/// A text that does not occur is counted zero times, and only then.
pub proof fn occurrences_zero(s: Seq<char>, p: Seq<char>)
    ensures
        occurrences(s, p) == 0 <==> !occurs_in(s, p),
    decreases s.len(),
{
    if p.len() == 0 {
        assert(s.subrange(0, 0) =~= p);
        assert(occurs_at(s, p, 0));
    } else if s.len() < p.len() {
    } else if p.is_prefix_of(s) {
        assert(s.subrange(0, p.len() as int) =~= p);
        assert(occurs_at(s, p, 0));
    } else {
        let t = s.drop_first();
        occurrences_zero(t, p);
        if occurs_in(s, p) {
            let i = choose|i: int| occurs_at(s, p, i);
            if i == 0 {
                assert(s.subrange(0, p.len() as int) =~= p);
                assert(p.is_prefix_of(s));
            }
            assert(t.subrange(i - 1, i - 1 + p.len()) =~= s.subrange(i, i + p.len()));
            assert(occurs_at(t, p, i - 1));
        }
        if occurs_in(t, p) {
            let i = choose|i: int| occurs_at(t, p, i);
            assert(s.subrange(i + 1, i + 1 + p.len()) =~= t.subrange(i, i + p.len()));
            assert(occurs_at(s, p, i + 1));
        }
    }
}

/// A text that does not occur is not replaced.
pub proof fn replaced_absent(s: Seq<char>, p: Seq<char>, new: Seq<char>)
    requires
        !occurs_in(s, p),
    ensures
        replaced(s, p, new) == s,
        replaced_first(s, p, new) == s,
    decreases s.len(),
{
    occurrences_zero(s, p);
    if p.is_prefix_of(s) {
        assert(s.subrange(0, p.len() as int) =~= p);
        assert(occurs_at(s, p, 0));
    } else if s.len() > 0 {
        let t = s.drop_first();
        if occurs_in(t, p) {
            let i = choose|i: int| occurs_at(t, p, i);
            assert(s.subrange(i + 1, i + 1 + p.len()) =~= t.subrange(i, i + p.len()));
            assert(occurs_at(s, p, i + 1));
        }
        replaced_absent(t, p, new);
        assert(seq![s[0]] + t =~= s);
    }
}

/// Where there is a single occurrence, replacing the first one replaces them all.
pub proof fn replaced_once(s: Seq<char>, p: Seq<char>, new: Seq<char>)
    requires
        occurrences(s, p) == 1,
        p.len() > 0,
    ensures
        replaced(s, p, new) == replaced_first(s, p, new),
    decreases s.len(),
{
    if p.is_prefix_of(s) {
        occurrences_zero(s.skip(p.len() as int), p);
        replaced_absent(s.skip(p.len() as int), p, new);
    } else {
        replaced_once(s.drop_first(), p, new);
    }
}

/// How many times `p` occurs in `s`.
pub fn count_matches(s: &str, p: &str) -> (r: usize)
    requires
        s@.len() < usize::MAX,
    ensures
        r == occurrences(s@, p@),
{
    let a = chars_of(s);
    let b = chars_of(p);
    if b.len() == 0 {
        return a.len() + 1;
    }
    let mut i: usize = 0;
    let mut n: usize = 0;
    assert(a@.skip(0) =~= s@);
    while i < a.len()
        invariant
            i <= a.len(),
            a@ == s@,
            b@ == p@,
            b.len() > 0,
            n <= i,
            n + occurrences(a@.skip(i as int), p@) == occurrences(s@, p@),
        decreases a.len() - i,
    {
        let ghost rest = a@.skip(i as int);
        if matches_at(&a, i, &b) {
            assert(rest.skip(p@.len() as int) =~= a@.skip(i + p@.len()));
            n = n + 1;
            i = i + b.len();
        } else {
            proof {
                if rest.len() < p@.len() {
                    assert(occurrences(rest.drop_first(), p@) == 0);
                }
            }
            assert(rest.drop_first() =~= a@.skip(i + 1));
            i = i + 1;
        }
    }
    n
}

/// Appends `chars[from..to]` to `out`.
pub fn push_range(out: &mut String, chars: &Vec<char>, from: usize, to: usize)
    requires
        from <= to <= chars.len(),
    ensures
        final(out)@ == old(out)@ + chars@.subrange(from as int, to as int),
{
    let ghost before = out@;
    let mut i: usize = from;
    assert(before + chars@.subrange(from as int, from as int) =~= before);
    while i < to
        invariant
            from <= i <= to <= chars.len(),
            out@ == before + chars@.subrange(from as int, i as int),
        decreases to - i,
    {
        out.push(chars[i]);
        assert(chars@.subrange(from as int, i + 1) =~= chars@.subrange(from as int, i as int).push(
            chars@[i as int],
        ));
        assert(out@ =~= before + chars@.subrange(from as int, i + 1));
        i = i + 1;
    }
}

/// `s` with every occurrence of `p` replaced by `new`.
pub fn replace_all(s: &str, p: &str, new: &str) -> (r: String)
    ensures
        r@ == replaced(s@, p@, new@),
{
    let a = chars_of(s);
    let b = chars_of(p);
    let mut out = String::new();
    let mut i: usize = 0;
    assert(a@.skip(0) =~= s@);
    if b.len() == 0 {
        assert(out@ + interleaved(s@, new@) =~= interleaved(s@, new@));
        while i < a.len()
            invariant
                i <= a.len(),
                a@ == s@,
                out@ + interleaved(a@.skip(i as int), new@) == interleaved(s@, new@),
            decreases a.len() - i,
        {
            let ghost rest = a@.skip(i as int);
            let ghost before = out@;
            out.push_str(new);
            out.push(a[i]);
            assert(rest.drop_first() =~= a@.skip(i + 1));
            assert(out@ + interleaved(a@.skip(i + 1), new@) =~= before + interleaved(rest, new@));
            i = i + 1;
        }
        out.push_str(new);
        return out;
    }
    assert(out@ + replaced(s@, p@, new@) =~= replaced(s@, p@, new@));
    while i < a.len()
        invariant
            i <= a.len(),
            a@ == s@,
            b@ == p@,
            b.len() > 0,
            out@ + replaced(a@.skip(i as int), p@, new@) == replaced(s@, p@, new@),
        decreases a.len() - i,
    {
        let ghost rest = a@.skip(i as int);
        let ghost before = out@;
        if matches_at(&a, i, &b) {
            out.push_str(new);
            assert(rest.skip(p@.len() as int) =~= a@.skip(i + p@.len()));
            assert(out@ + replaced(a@.skip(i + p@.len()), p@, new@) =~= before + replaced(
                rest,
                p@,
                new@,
            ));
            i = i + b.len();
        } else {
            out.push(a[i]);
            assert(rest.drop_first() =~= a@.skip(i + 1));
            proof {
                if rest.len() < p@.len() {
                    assert(replaced(rest.drop_first(), p@, new@) == rest.drop_first());
                    assert(rest =~= seq![rest[0]] + rest.drop_first());
                }
            }
            assert(out@ + replaced(a@.skip(i + 1), p@, new@) =~= before + replaced(rest, p@, new@));
            i = i + 1;
        }
    }
    assert(replaced(a@.skip(i as int), p@, new@) =~= seq![]);
    assert(out@ =~= replaced(s@, p@, new@));
    out
}

/// `s` with the first occurrence of `p`, if any, replaced by `new`.
pub fn replace_first(s: &str, p: &str, new: &str) -> (r: String)
    ensures
        r@ == replaced_first(s@, p@, new@),
{
    let a = chars_of(s);
    let b = chars_of(p);
    let mut out = String::new();
    let mut i: usize = 0;
    assert(a@.skip(0) =~= s@);
    assert(out@ + replaced_first(s@, p@, new@) =~= replaced_first(s@, p@, new@));
    loop
        invariant
            i <= a.len(),
            a@ == s@,
            b@ == p@,
            out@ + replaced_first(a@.skip(i as int), p@, new@) == replaced_first(s@, p@, new@),
        decreases a.len() - i,
    {
        let ghost rest = a@.skip(i as int);
        let ghost before = out@;
        if matches_at(&a, i, &b) {
            out.push_str(new);
            push_range(&mut out, &a, i + b.len(), a.len());
            assert(rest.skip(p@.len() as int) =~= a@.subrange(i + p@.len(), a@.len() as int));
            assert(out@ =~= before + replaced_first(rest, p@, new@));
            return out;
        }
        if i == a.len() {
            assert(out@ =~= before + replaced_first(rest, p@, new@));
            return out;
        }
        out.push(a[i]);
        assert(rest.drop_first() =~= a@.skip(i + 1));
        assert(out@ + replaced_first(a@.skip(i + 1), p@, new@) =~= before + replaced_first(
            rest,
            p@,
            new@,
        ));
        i = i + 1;
    }
}

// ── Joining ───────────────────────────────────────────────────────────────────

/// The pieces one after the other, with `sep` between each two.
pub open spec fn joined(parts: Seq<Seq<char>>, sep: Seq<char>) -> Seq<char>
    decreases parts.len(),
{
    if parts.len() == 0 {
        seq![]
    } else if parts.len() == 1 {
        parts[0]
    } else {
        joined(parts.drop_last(), sep) + sep + parts.last()
    }
}

/// The pieces one after the other, with `sep` between each two.
pub fn join(parts: &Vec<String>, sep: &str) -> (r: String)
    ensures
        r@ == joined(views(parts@), sep@),
{
    let mut out = String::new();
    let mut i: usize = 0;
    while i < parts.len()
        invariant
            i <= parts.len(),
            out@ == joined(views(parts@).take(i as int), sep@),
        decreases parts.len() - i,
    {
        let ghost before = views(parts@).take(i as int);
        let ghost after = views(parts@).take(i + 1);
        let ghost text = out@;
        if i > 0 {
            out.push_str(sep);
        }
        out.push_str(parts[i].as_str());
        assert(after.drop_last() =~= before);
        assert(after.last() == parts@[i as int]@);
        if i == 0 {
            assert(out@ =~= after[0]);
        } else {
            assert(out@ =~= text + sep@ + after.last());
        }
        i = i + 1;
    }
    assert(views(parts@).take(i as int) =~= views(parts@));
    out
}

/// The first `n` characters of `s`, or all of it where it is shorter.
pub open spec fn at_most(s: Seq<char>, n: int) -> Seq<char> {
    if s.len() <= n {
        s
    } else {
        s.take(n)
    }
}

/// The first `n` characters of `s`, or all of it where it is shorter.
pub fn take_chars(s: &str, n: usize) -> (r: String)
    ensures
        r@ == at_most(s@, n as int),
{
    let a = chars_of(s);
    let end: usize = if a.len() <= n {
        a.len()
    } else {
        n
    };
    let r = string_of(&a, 0, end);
    assert(r@ =~= at_most(s@, n as int));
    r
}

} // verus!
