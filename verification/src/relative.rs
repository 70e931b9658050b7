//! The part of a path that lies below another path.
use vstd::prelude::*;
use crate::path::{comp_views, components, comps, is_absolute, is_idle, is_rooted, part_of, parts_of,
    root_of, Comp, CompView};
use crate::search::{join, joined};
use crate::split::{pieces, pieces_hold_no_separator, split_char};
use crate::text::{concat2, owned, str_eq, views};

verus! {

/// The pieces behind the first `k` parts. The first piece of a path from the root stands for the
/// root.
pub open spec fn pieces_behind(path: Seq<char>, k: nat) -> Seq<Seq<char>> {
    let segs = pieces(path, '/');
    segs.skip(behind_from(path, segs.len(), k) as int)
}

/// How many of the first `n` pieces of a path the first `k` parts take: the fewest in which all
/// of them stand.
pub open spec fn behind_from(path: Seq<char>, n: nat, k: nat) -> nat
    decreases n,
{
    if n == 0 || k == 0 {
        0
    } else if parts_among(path, (n - 1) as nat).len() >= k {
        behind_from(path, (n - 1) as nat, k)
    } else {
        n
    }
}

/// The parts that the first `n` pieces of a path stand for.
pub open spec fn parts_among(path: Seq<char>, n: nat) -> Seq<CompView> {
    if n == 0 {
        seq![]
    } else {
        root_of(path) + parts_of(pieces(path, '/').take(n as int))
    }
}

/// The pieces without those at the front that say nothing.
pub open spec fn idle_front_off(segs: Seq<Seq<char>>) -> Seq<Seq<char>>
    decreases segs.len(),
{
    if segs.len() > 0 && is_idle(segs[0]) {
        idle_front_off(segs.drop_first())
    } else {
        segs
    }
}

/// The pieces without those at the end that say nothing. With `dot`, a single dot at the front
/// says something.
pub open spec fn idle_end_off(segs: Seq<Seq<char>>, dot: bool) -> Seq<Seq<char>>
    decreases segs.len(),
{
    if segs.len() > 0 && is_idle(segs.last()) && !(dot && segs.len() == 1 && segs[0] == "."@) {
        idle_end_off(segs.drop_last(), dot)
    } else {
        segs
    }
}

/// What is left of `path` behind its first `k` parts, as it is written there.
pub open spec fn rest_behind(path: Seq<char>, k: nat) -> Seq<char> {
    if k > 0 {
        joined(idle_end_off(idle_front_off(pieces_behind(path, k)), false), "/"@)
    } else if is_rooted(path) {
        "/"@ + joined(idle_end_off(pieces(path, '/').skip(1), false), "/"@)
    } else {
        joined(idle_end_off(pieces(path, '/'), true), "/"@)
    }
}

/// `path` as it is seen from `base`: what is left behind the parts of `base`, or all of it where
/// it does not lie below `base`.
pub open spec fn relative_to(path: Seq<char>, base: Seq<char>) -> Seq<char> {
    if comps(base).is_prefix_of(comps(path)) {
        rest_behind(path, comps(base).len())
    } else {
        path
    }
}

/// Whether two lists of parts agree as far as the first goes.
fn parts_open_with(parts: &Vec<Comp>, base: &Vec<Comp>) -> (r: bool)
    ensures
        r == comp_views(base@).is_prefix_of(comp_views(parts@)),
{
    let ghost p = comp_views(parts@);
    let ghost b = comp_views(base@);
    if base.len() > parts.len() {
        return false;
    }
    let mut i: usize = 0;
    while i < base.len()
        invariant
            i <= base.len() <= parts.len(),
            p == comp_views(parts@),
            b == comp_views(base@),
            forall|j: int| 0 <= j < i ==> p[j] == b[j],
        decreases base.len() - i,
    {
        assert(p[i as int] == parts@[i as int]@);
        assert(b[i as int] == base@[i as int]@);
        let same = match (&parts[i], &base[i]) {
            (Comp::Root, Comp::Root) => true,
            (Comp::Cur, Comp::Cur) => true,
            (Comp::Parent, Comp::Parent) => true,
            (Comp::Normal(x), Comp::Normal(y)) => str_eq(x.as_str(), y.as_str()),
            _ => false,
        };
        if !same {
            proof {
                if b.is_prefix_of(p) {
                    assert(p.subrange(0, b.len() as int)[i as int] == b[i as int]);
                }
            }
            return false;
        }
        i = i + 1;
    }
    assert(p.subrange(0, b.len() as int) =~= b);
    true
}

/// Whether a piece stands for a part.
fn stands_for_part(piece: &str, first: bool) -> (r: bool)
    ensures
        r == part_of(piece@, first) is Some,
{
    !str_eq(piece, "") && (first || !str_eq(piece, "."))
}

/// Whether a piece says nothing.
fn idle(piece: &str) -> (r: bool)
    ensures
        r == is_idle(piece@),
{
    str_eq(piece, "") || str_eq(piece, ".")
}

/// The pieces from `from` to `to`.
fn slice_texts(v: &Vec<String>, from: usize, to: usize) -> (r: Vec<String>)
    requires
        from <= to <= v.len(),
    ensures
        views(r@) == views(v@).subrange(from as int, to as int),
{
    let mut out: Vec<String> = Vec::new();
    let mut i: usize = from;
    while i < to
        invariant
            from <= i <= to <= v.len(),
            views(out@) == views(v@).subrange(from as int, i as int),
        decreases to - i,
    {
        let ghost before = out@;
        out.push(v[i].clone());
        assert(views(out@) =~= views(before).push(v@[i as int]@));
        assert(views(v@).subrange(from as int, i + 1) =~= views(v@).subrange(
            from as int,
            i as int,
        ).push(v@[i as int]@));
        i = i + 1;
    }
    out
}

/// The end of the pieces from `from` on, without those at the end that say nothing.
fn end_without_idle(v: &Vec<String>, from: usize, dot: bool) -> (r: usize)
    requires
        from <= v.len(),
    ensures
        from <= r <= v.len(),
        idle_end_off(views(v@).skip(from as int), dot) == views(v@).subrange(
            from as int,
            r as int,
        ),
{
    let ghost all = views(v@);
    let mut to: usize = v.len();
    assert(all.subrange(from as int, to as int) =~= all.skip(from as int));
    while to > from && idle(v[to - 1].as_str()) && !(dot && to - from == 1 && str_eq(
        v[from].as_str(),
        ".",
    ))
        invariant
            from <= to <= v.len(),
            all == views(v@),
            idle_end_off(all.skip(from as int), dot) == idle_end_off(
                all.subrange(from as int, to as int),
                dot,
            ),
        decreases to - from,
    {
        let ghost now = all.subrange(from as int, to as int);
        assert(now.last() == v@[to - 1]@);
        assert(now[0] == v@[from as int]@);
        assert(now.drop_last() =~= all.subrange(from as int, to - 1));
        to = to - 1;
    }
    proof {
        let now = all.subrange(from as int, to as int);
        if to > from {
            assert(now.last() == v@[to - 1]@);
            assert(now[0] == v@[from as int]@);
        }
        assert(idle_end_off(now, dot) == now);
    }
    to
}

/// How many parts one more piece adds.
pub proof fn parts_among_grow(path: Seq<char>, n: nat)
    requires
        n < pieces(path, '/').len(),
    ensures
        parts_among(path, n + 1).len() == parts_among(path, n).len() + (if n == 0 {
            root_of(path).len()
        } else {
            0
        }) + (if part_of(pieces(path, '/')[n as int], n == 0) is Some {
            1nat
        } else {
            0
        }),
{
    let segs = pieces(path, '/');
    assert(segs.take(n as int + 1).drop_last() =~= segs.take(n as int));
    assert(segs.take(n as int + 1).last() == segs[n as int]);
    if n == 0 {
        assert(segs.take(0) =~= seq![]);
        assert(parts_of(segs.take(0)) =~= seq![]);
    }
    assert((n + 1) as int == n as int + 1);
    assert(segs.take(n as int + 1).len() == n + 1);
}

proof fn behind_from_is(path: Seq<char>, n: nat, k: nat, j: nat)
    requires
        j <= n <= pieces(path, '/').len(),
        k > 0,
        j > 0 ==> parts_among(path, (j - 1) as nat).len() < k,
        parts_among(path, j).len() >= k || j == n,
    ensures
        behind_from(path, n, k) == j,
    decreases n,
{
    if j < n {
        assert(parts_among(path, (n - 1) as nat).len() >= k) by {
            among_monotone(path, j, (n - 1) as nat);
        }
        behind_from_is(path, (n - 1) as nat, k, j);
    } else if n > 0 {
    }
}

proof fn among_monotone(path: Seq<char>, a: nat, b: nat)
    requires
        a <= b <= pieces(path, '/').len(),
    ensures
        parts_among(path, a).len() <= parts_among(path, b).len(),
    decreases b - a,
{
    if a < b {
        among_monotone(path, a, (b - 1) as nat);
        parts_among_grow(path, (b - 1) as nat);
    }
}

/// `path` as it is seen from `base`.
pub fn relativize_path(path: &str, base: &str) -> (r: String)
    ensures
        r@ == relative_to(path@, base@),
{
    let parts = components(path);
    let base_parts = components(base);
    if !parts_open_with(&parts, &base_parts) {
        return owned(path);
    }
    let k = base_parts.len();
    assert(k == comps(base@).len());
    let segs = split_char(path, '/');
    let ghost all = pieces(path@, '/');
    proof {
        pieces_hold_no_separator(path@, '/');
    }
    assert(segs@.len() == all.len());
    let rooted = is_absolute(path);
    if k == 0 {
        if rooted {
            let to = end_without_idle(&segs, 1, false);
            let rest = slice_texts(&segs, 1, to);
            return concat2("/", join(&rest, "/").as_str());
        }
        let to = end_without_idle(&segs, 0, true);
        let rest = slice_texts(&segs, 0, to);
        assert(all.skip(0) =~= all);
        return join(&rest, "/");
    }
    let mut j: usize = 0;
    let mut found: usize = 0;
    while j < segs.len() && found < k
        invariant
            j <= segs.len(),
            views(segs@) == all,
            all == pieces(path@, '/'),
            rooted == is_rooted(path@),
            found == parts_among(path@, j as nat).len(),
            j > 0 ==> parts_among(path@, (j - 1) as nat).len() < k,
            k > 0,
            k <= usize::MAX,
            found <= k + 1,
        decreases segs.len() - j,
    {
        assert(all[j as int] == segs@[j as int]@);
        proof {
            parts_among_grow(path@, j as nat);
            if j == 0 && rooted {
                first_piece_of_rooted(path@);
            }
        }
        if j == 0 && rooted {
            found = found + 1;
        } else if stands_for_part(segs[j].as_str(), j == 0) {
            found = found + 1;
        }
        j = j + 1;
    }
    proof {
        behind_from_is(path@, all.len(), k as nat, j as nat);
    }
    let ghost behind = all.skip(j as int);
    let mut from: usize = j;
    while from < segs.len() && idle(segs[from].as_str())
        invariant
            j <= from <= segs.len(),
            views(segs@) == all,
            idle_front_off(behind) == idle_front_off(all.skip(from as int)),
        decreases segs.len() - from,
    {
        assert(all.skip(from as int)[0] == segs@[from as int]@);
        assert(all.skip(from as int).drop_first() =~= all.skip(from + 1));
        from = from + 1;
    }
    proof {
        if from < segs@.len() {
            assert(all.skip(from as int)[0] == segs@[from as int]@);
        }
        assert(idle_front_off(all.skip(from as int)) == all.skip(from as int));
    }
    let to = end_without_idle(&segs, from, false);
    let rest = slice_texts(&segs, from, to);
    join(&rest, "/")
}

/// The first piece of a path from the root is empty.
pub proof fn first_piece_of_rooted(path: Seq<char>)
    requires
        is_rooted(path),
    ensures
        pieces(path, '/').len() > 1,
        pieces(path, '/')[0] == ""@,
{
    reveal_strlit("");
    crate::split::index_of_char_is(path, '/', 0);
    pieces_hold_no_separator(path.skip(1), '/');
    assert(path.take(0) =~= ""@);
}

} // verus!
