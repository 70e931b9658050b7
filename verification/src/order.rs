//! The order of texts: character by character, by number.
use vstd::prelude::*;
use vstd::relations::total_ordering;
use vstd::seq_lib::{lemma_sorted_unique, to_multiset_insert};
use crate::text::{chars_of, views};

verus! {

/// Whether `a` stands before `b` in a dictionary.
pub open spec fn text_lt(a: Seq<char>, b: Seq<char>) -> bool
    decreases a.len(),
{
    if b.len() == 0 {
        false
    } else if a.len() == 0 {
        true
    } else if a[0] == b[0] {
        text_lt(a.drop_first(), b.drop_first())
    } else {
        (a[0] as u32) < (b[0] as u32)
    }
}

/// No text stands before itself.
pub proof fn text_lt_irreflexive(a: Seq<char>)
    ensures
        !text_lt(a, a),
    decreases a.len(),
{
    if a.len() > 0 {
        text_lt_irreflexive(a.drop_first());
    }
}

/// What stands before a text stands before all that follow it.
pub proof fn text_lt_transitive(a: Seq<char>, b: Seq<char>, c: Seq<char>)
    requires
        text_lt(a, b),
        text_lt(b, c),
    ensures
        text_lt(a, c),
    decreases a.len(),
{
    if a.len() > 0 && a[0] == b[0] && b[0] == c[0] {
        text_lt_transitive(a.drop_first(), b.drop_first(), c.drop_first());
    }
}

/// Different characters have different numbers.
proof fn char_code_injective(a: char, b: char)
    requires
        a as u32 == b as u32,
    ensures
        a == b,
{
}

/// Of two different texts one stands before the other.
pub proof fn text_lt_total(a: Seq<char>, b: Seq<char>)
    ensures
        a == b || text_lt(a, b) || text_lt(b, a),
    decreases a.len(),
{
    if a.len() > 0 && b.len() > 0 {
        if a[0] == b[0] {
            text_lt_total(a.drop_first(), b.drop_first());
            if a.drop_first() == b.drop_first() {
                assert(a =~= seq![a[0]] + a.drop_first());
                assert(b =~= seq![b[0]] + b.drop_first());
                assert(a == b);
            }
        } else {
            if a[0] as u32 == b[0] as u32 {
                char_code_injective(a[0], b[0]);
            }
        }
    } else if a.len() == 0 && b.len() == 0 {
        assert(a =~= b);
    }
}

/// Whether `a` stands before `b` in a dictionary.
pub fn text_before(a: &str, b: &str) -> (r: bool)
    ensures
        r == text_lt(a@, b@),
{
    let x = chars_of(a);
    let y = chars_of(b);
    let mut i: usize = 0;
    assert(x@.skip(0) =~= a@);
    assert(y@.skip(0) =~= b@);
    while i < x.len() && i < y.len() && x[i] == y[i]
        invariant
            i <= x.len(),
            i <= y.len(),
            text_lt(a@, b@) == text_lt(x@.skip(i as int), y@.skip(i as int)),
        decreases x.len() - i,
    {
        assert(x@.skip(i as int).drop_first() =~= x@.skip(i + 1));
        assert(y@.skip(i as int).drop_first() =~= y@.skip(i + 1));
        i = i + 1;
    }
    if i == y.len() {
        false
    } else if i == x.len() {
        true
    } else {
        (x[i] as u32) < (y[i] as u32)
    }
}

/// Whether each text stands before, or equals, the one behind it.
pub open spec fn texts_sorted(s: Seq<Seq<char>>) -> bool {
    forall|i: int, j: int| 0 <= i < j < s.len() ==> !text_lt(#[trigger] s[j], #[trigger] s[i])
}

/// Puts `x` at its place in a sorted list, behind the texts that equal it.
fn insert_sorted(list: &mut Vec<String>, x: String)
    requires
        texts_sorted(views(old(list)@)),
    ensures
        texts_sorted(views(final(list)@)),
        views(final(list)@).to_multiset() == views(old(list)@).to_multiset().insert(x@),
{
    let ghost before = views(list@);
    let mut i: usize = list.len();
    while i > 0 && text_before(x.as_str(), list[i - 1].as_str())
        invariant
            i <= list.len(),
            views(list@) == before,
            forall|j: int| i <= j < before.len() ==> text_lt(x@, #[trigger] before[j]),
        decreases i,
    {
        assert(before[i - 1] == list@[i - 1]@);
        i = i - 1;
    }
    let ghost xv = x@;
    proof {
        if i > 0 {
            assert(before[i - 1] == list@[i - 1]@);
        }
    }
    list.insert(i, x);
    let ghost after = views(list@);
    assert(after =~= before.insert(i as int, xv));
    proof {
        to_multiset_insert(before, i as int, xv);
        assert forall|a: int, b: int| 0 <= a < b < after.len() implies !text_lt(
            #[trigger] after[b],
            #[trigger] after[a],
        ) by {
            if b == i {
                assert(after[a] == before[a]);
                if text_lt(xv, before[a]) {
                    // `before[a]` stands no later than `before[i - 1]`, which is no later than `x`.
                    if a < i - 1 {
                        assert(!text_lt(before[i - 1], before[a]));
                        text_lt_total(before[a], before[i - 1]);
                        if before[a] != before[i - 1] {
                            text_lt_transitive(xv, before[a], before[i - 1]);
                        }
                    }
                }
            } else if a == i {
                assert(after[b] == before[b - 1]);
                if text_lt(before[b - 1], xv) {
                    text_lt_transitive(xv, before[b - 1], xv);
                    text_lt_irreflexive(xv);
                }
            } else {
                let a0 = if a < i {
                    a
                } else {
                    a - 1
                };
                let b0 = if b < i {
                    b
                } else {
                    b - 1
                };
                assert(after[a] == before[a0]);
                assert(after[b] == before[b0]);
            }
        }
    }
}

/// Whether `a` stands before `b` or equals it.
pub open spec fn text_leq() -> spec_fn(Seq<char>, Seq<char>) -> bool {
    |a: Seq<char>, b: Seq<char>| !text_lt(b, a)
}

/// The texts, in order.
pub open spec fn sorted_texts(s: Seq<Seq<char>>) -> Seq<Seq<char>> {
    s.sort_by(text_leq())
}

/// The order of texts is a total one.
pub proof fn text_leq_is_total()
    ensures
        total_ordering(text_leq()),
{
    let r = text_leq();
    assert forall|x: Seq<char>| #[trigger] r(x, x) by {
        text_lt_irreflexive(x);
    }
    assert forall|x: Seq<char>, y: Seq<char>| #[trigger] r(x, y) && #[trigger] r(
        y,
        x,
    ) implies x == y by {
        text_lt_total(x, y);
    }
    assert forall|x: Seq<char>, y: Seq<char>, z: Seq<char>| #[trigger] r(x, y) && #[trigger] r(
        y,
        z,
    ) implies r(x, z) by {
        text_lt_total(x, y);
        text_lt_total(y, z);
        if text_lt(z, x) {
            if x != y {
                text_lt_transitive(z, x, y);
            }
        }
    }
    assert forall|x: Seq<char>, y: Seq<char>| #[trigger] r(x, y) || #[trigger] r(y, x) by {
        if text_lt(y, x) && text_lt(x, y) {
            text_lt_transitive(x, y, x);
            text_lt_irreflexive(x);
        }
    }
}

/// The texts of `list`, in order.
pub fn sort_texts(list: Vec<String>) -> (r: Vec<String>)
    ensures
        views(r@) == sorted_texts(views(list@)),
        r@.len() == list@.len(),
{
    let ghost all = views(list@);
    let mut out: Vec<String> = Vec::new();
    let mut i: usize = 0;
    assert(views(out@) =~= all.take(0));
    while i < list.len()
        invariant
            i <= list.len(),
            all == views(list@),
            texts_sorted(views(out@)),
            views(out@).to_multiset() == all.take(i as int).to_multiset(),
        decreases list.len() - i,
    {
        assert(all[i as int] == list@[i as int]@);
        proof {
            all.take(i as int).to_multiset_ensures();
            assert(all.take(i + 1) =~= all.take(i as int).push(all[i as int]));
        }
        insert_sorted(&mut out, list[i].clone());
        i = i + 1;
    }
    assert(all.take(i as int) =~= all);
    proof {
        views(out@).to_multiset_ensures();
        all.to_multiset_ensures();
        assert(views(out@).len() == all.len());
        text_leq_is_total();
        all.lemma_sort_by_ensures(text_leq());
        lemma_sorted_unique(views(out@), sorted_texts(all), text_leq());
    }
    out
}

// ── Laws ──────────────────────────────────────────────────────────────────────

/// The first character in which two texts differ decides, by its number; a text stands before
/// those that go on where it ends.
pub proof fn the_first_difference_decides(
    head: Seq<char>,
    a: char,
    x: Seq<char>,
    b: char,
    y: Seq<char>,
)
    requires
        a != b,
    ensures
        text_lt(head + seq![a] + x, head + seq![b] + y) <==> (a as u32) < (b as u32),
        text_lt(head, head + seq![b] + y),
    decreases head.len(),
{
    let p = head + seq![a] + x;
    let q = head + seq![b] + y;
    if head.len() > 0 {
        let rest = head.drop_first();
        the_first_difference_decides(rest, a, x, b, y);
        assert(p.drop_first() =~= rest + seq![a] + x);
        assert(q.drop_first() =~= rest + seq![b] + y);
        assert(p[0] == q[0]);
    } else {
        assert(p[0] == a);
        assert(q[0] == b);
    }
}

} // verus!
