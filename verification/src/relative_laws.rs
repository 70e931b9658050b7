//! What holds of paths that were made relative.
use vstd::prelude::*;
use crate::context::{comps_of_joined, confined, later_parts, no_dot, normal_of_names, parts_of_sum,
    target};
use crate::path::{comps, first_of_joined, is_idle, is_rooted, norm_comps, norm_text_comps, normal,
    normal_names, parts_are_names, parts_of, path_joined, pieces_of_joined, CompView, NormView};
use crate::relative::{behind_from, first_piece_of_rooted, idle_end_off, idle_front_off,
    parts_among, parts_among_grow, pieces_behind, relative_to, rest_behind};
use crate::search::joined;
use crate::split::{index_of_char_is, pieces, pieces_hold_no_separator};

verus! {

/// A path whose first part is the root starts there.
proof fn root_comes_first(path: Seq<char>)
    requires
        comps(path).len() > 0,
        comps(path)[0] == CompView::Root,
    ensures
        is_rooted(path),
{
    if !is_rooted(path) {
        pieces_hold_no_separator(path, '/');
        parts_are_names(pieces(path, '/'));
        assert(comps(path) =~= parts_of(pieces(path, '/')));
        assert(parts_of(pieces(path, '/'))[0] == comps(path)[0]);
    }
}

/// The first `k` parts of a path from the root stand in as many pieces as `behind_from` says, and
/// they alone.
proof fn behind_from_takes(path: Seq<char>, n: nat, k: nat)
    requires
        is_rooted(path),
        n <= pieces(path, '/').len(),
        k > 0,
        parts_among(path, n).len() >= k,
    ensures
        0 < behind_from(path, n, k) <= n,
        parts_among(path, behind_from(path, n, k)).len() == k,
    decreases n,
{
    first_piece_of_rooted(path);
    if parts_among(path, (n - 1) as nat).len() >= k {
        behind_from_takes(path, (n - 1) as nat, k);
    } else {
        parts_among_grow(path, (n - 1) as nat);
    }
}

/// Pieces at the front that say nothing add no part.
proof fn front_is_idle(segs: Seq<Seq<char>>)
    ensures
        later_parts(idle_front_off(segs)) == later_parts(segs),
        idle_front_off(segs).len() <= segs.len(),
        idle_front_off(segs) == segs.skip(segs.len() - idle_front_off(segs).len()),
        idle_front_off(segs).len() > 0 ==> !is_idle(idle_front_off(segs)[0]),
    decreases segs.len(),
{
    if segs.len() > 0 && is_idle(segs[0]) {
        let rest = segs.drop_first();
        front_is_idle(rest);
        first_part_is(segs);
        let n = rest.len() - idle_front_off(rest).len();
        assert(segs.skip(n + 1) =~= rest.skip(n));
        assert(later_parts(segs) =~= later_parts(rest));
    } else {
        assert(segs.skip(0) =~= segs);
    }
}

/// The parts of pieces, from the front.
proof fn first_part_is(segs: Seq<Seq<char>>)
    requires
        segs.len() > 0,
        is_idle(segs[0]),
    ensures
        later_parts(segs) == later_parts(segs.drop_first()),
    decreases segs.len(),
{
    if segs.len() == 1 {
        assert(segs.drop_last() =~= segs.drop_first());
        assert(segs.last() == segs[0]);
    } else {
        first_part_is(segs.drop_last());
        assert(segs.drop_last().drop_first() =~= segs.drop_first().drop_last());
        assert(segs.drop_first().last() == segs.last());
    }
}

/// Pieces at the end that say nothing add no part.
proof fn end_is_idle(segs: Seq<Seq<char>>)
    ensures
        later_parts(idle_end_off(segs, false)) == later_parts(segs),
        idle_end_off(segs, false).len() <= segs.len(),
        idle_end_off(segs, false) == segs.take(idle_end_off(segs, false).len() as int),
    decreases segs.len(),
{
    if segs.len() > 0 && is_idle(segs.last()) {
        let front = segs.drop_last();
        end_is_idle(front);
        let n = idle_end_off(front, false).len() as int;
        assert(segs.take(n) =~= front.take(n));
    } else {
        assert(segs.take(segs.len() as int) =~= segs);
    }
}

/// A part behind the first piece is never a single dot.
proof fn later_parts_hold_no_dot(segs: Seq<Seq<char>>)
    ensures
        no_dot(later_parts(segs)),
    decreases segs.len(),
{
    if segs.len() > 0 {
        later_parts_hold_no_dot(segs.drop_last());
    }
}

/// The first piece counts as any other, unless it is a single dot.
proof fn first_counts_as_any(segs: Seq<Seq<char>>)
    requires
        segs.len() > 0 ==> segs[0] != "."@,
    ensures
        parts_of(segs) == later_parts(segs),
    decreases segs.len(),
{
    if segs.len() > 0 {
        if segs.len() > 1 {
            assert(segs.drop_last()[0] == segs[0]);
        }
        first_counts_as_any(segs.drop_last());
        if segs.len() == 1 {
            assert(segs.last() == segs[0]);
        }
    }
}

/// The text of pieces of which the first says something is a relative path with their parts.
proof fn comps_of_pieces(segs: Seq<Seq<char>>)
    requires
        segs.len() > 0 ==> !is_idle(segs[0]),
        forall|i: int| 0 <= i < segs.len() ==> !(#[trigger] segs[i]).contains('/'),
    ensures
        !is_rooted(joined(segs, "/"@)),
        comps(joined(segs, "/"@)) == later_parts(segs),
{
    reveal_strlit("");
    let text = joined(segs, "/"@);
    if segs.len() == 0 {
        assert(text =~= ""@);
        index_of_char_is(text, '/', 0);
        assert(pieces(text, '/') =~= seq![""@]);
        assert(seq![""@].drop_last() =~= seq![]);
        reveal_with_fuel(parts_of, 2);
        assert(comps(text) =~= seq![]);
    } else {
        let first = segs[0];
        pieces_of_joined(segs);
        first_of_joined(segs);
        if first.len() == 0 {
            assert(first =~= ""@);
        }
        assert(text.subrange(0, first.len() as int)[0] == first[0]);
        assert(first.contains(first[0]));
        first_counts_as_any(segs);
        assert(comps(text) =~= parts_of(segs));
    }
}

/// What is left behind the first `k` parts of a path from the root is a relative path with the
/// parts that follow.
proof fn rest_has_the_rest(path: Seq<char>, k: nat)
    requires
        is_rooted(path),
        0 < k <= comps(path).len(),
    ensures
        !is_rooted(rest_behind(path, k)),
        comps(rest_behind(path, k)) == comps(path).skip(k as int),
        no_dot(comps(rest_behind(path, k))),
{
    let segs = pieces(path, '/');
    pieces_hold_no_separator(path, '/');
    first_piece_of_rooted(path);
    assert(segs.take(segs.len() as int) =~= segs);
    assert(parts_among(path, segs.len()) == comps(path));
    behind_from_takes(path, segs.len(), k);
    let j = behind_from(path, segs.len(), k);
    let a = segs.take(j as int);
    let b = segs.skip(j as int);
    assert(pieces_behind(path, k) == b);
    assert(a + b =~= segs);
    parts_of_sum(a, b);
    assert(comps(path) =~= parts_among(path, j) + later_parts(b));
    assert(comps(path).skip(k as int) =~= later_parts(b));
    let front = idle_front_off(b);
    let mid = idle_end_off(front, false);
    front_is_idle(b);
    end_is_idle(front);
    assert forall|i: int| 0 <= i < mid.len() implies !(#[trigger] mid[i]).contains('/') by {
        let n = b.len() - front.len();
        assert(mid[i] == front[i]);
        assert(front[i] == b[n + i]);
        assert(b[n + i] == segs[j + n + i]);
    }
    if mid.len() > 0 {
        assert(mid[0] == front[0]);
    }
    comps_of_pieces(mid);
    later_parts_hold_no_dot(mid);
}

/// A path inside a worktree, made relative, is a relative path, and the path of that name in the
/// worktree is the path again: it has the same parts. A path that does not lie inside stays as it
/// is.
pub proof fn relative_path_leads_back(workdir: Seq<char>, path: Seq<char>)
    requires
        is_rooted(workdir),
    ensures
        comps(workdir).is_prefix_of(comps(path)) ==> !is_rooted(relative_to(path, workdir))
            && comps(path_joined(workdir, relative_to(path, workdir))) == comps(path),
        !comps(workdir).is_prefix_of(comps(path)) ==> relative_to(path, workdir) == path,
{
    if comps(workdir).is_prefix_of(comps(path)) {
        let k = comps(workdir).len();
        let rel = relative_to(path, workdir);
        assert(comps(workdir)[0] == CompView::Root);
        assert(comps(path).subrange(0, k as int)[0] == CompView::Root);
        root_comes_first(path);
        rest_has_the_rest(path, k);
        comps_of_joined(workdir, rel);
        assert(comps(path) =~= comps(path).subrange(0, k as int) + comps(path).skip(k as int));
    }
}

/// The normal form of a path in normal form is that path.
proof fn normal_is_final(n: NormView)
    ensures
        normal(norm_comps(n)) == n,
{
    let names = n.names.map_values(|s: Seq<char>| CompView::Normal(s));
    let head = if n.rooted {
        seq![CompView::Root]
    } else {
        seq![]
    };
    assert(norm_comps(n) =~= head + names);
    normal_of_names(head, names);
    reveal_with_fuel(normal, 2);
    if n.rooted {
        assert(head.drop_last() =~= seq![]);
    }
    assert(normal(head) =~= (NormView { rooted: n.rooted, names: seq![] }));
    assert(names.map_values(|c: CompView| c->Normal_0) =~= n.names);
    assert(normal(norm_comps(n)) =~= n);
}

/// A resolved path, made relative and resolved again, is itself.
pub proof fn relative_path_resolves_back(workdir: Seq<char>, rel: Seq<char>)
    requires
        is_rooted(workdir),
        confined(workdir, rel) is Ok,
    ensures
        confined(workdir, relative_to(confined(workdir, rel)->Ok_0, workdir)) == confined(
            workdir,
            rel,
        ),
{
    let n = target(workdir, rel);
    let path = confined(workdir, rel)->Ok_0;
    normal_names(path_joined(workdir, rel));
    norm_text_comps(n);
    relative_path_leads_back(workdir, path);
    normal_is_final(n);
    assert(target(workdir, relative_to(path, workdir)) == n);
}

} // verus!
