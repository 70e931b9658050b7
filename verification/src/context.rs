//! Where the tools of a session work: the worktree, and the paths inside it.
use vstd::prelude::*;
use crate::path::{components, comps, is_rooted, norm_comps, norm_text, norm_text_comps, norm_with,
    normal, normal_names, normalize, part_of, parts_of, path_join, path_joined, CompView, NormView};
use crate::relative::{relative_to, relativize_path};
use crate::split::{index_of_char_is, pieces, pieces_hold_no_separator, pieces_of_sum};
use crate::text::owned;
use crate::tool::{Error, ErrorView};

verus! {

/// The worktree of a session. Every path that a tool uses stays inside it.
#[derive(Debug)]
pub struct ToolContext {
    workdir: String,
}

impl View for ToolContext {
    type V = Seq<char>;

    closed spec fn view(&self) -> Seq<char> {
        self.workdir@
    }
}

impl Clone for ToolContext {
    fn clone(&self) -> (r: Self)
        ensures
            r@ == self@,
    {
        ToolContext { workdir: self.workdir.clone() }
    }
}

/// The path that `rel` stands for, seen from `workdir`, in normal form.
pub open spec fn target(workdir: Seq<char>, rel: Seq<char>) -> NormView {
    normal(comps(path_joined(workdir, rel)))
}

/// Whether the path in normal form lies inside `workdir`.
pub open spec fn is_inside(workdir: Seq<char>, n: NormView) -> bool {
    comps(workdir).is_prefix_of(norm_comps(n))
}

/// The path that `rel` stands for, where it lies inside `workdir`.
pub open spec fn confined(workdir: Seq<char>, rel: Seq<char>) -> Result<Seq<char>, ErrorView> {
    if is_inside(workdir, target(workdir, rel)) {
        Ok(norm_text(target(workdir, rel)))
    } else {
        Err(ErrorView::PathOutsideWorkdir(rel))
    }
}

/// The view of a result that is a path.
pub open spec fn path_result(r: Result<String, Error>) -> Result<Seq<char>, ErrorView> {
    match r {
        Ok(s) => Ok(s@),
        Err(e) => Err(e@),
    }
}

impl ToolContext {
    /// The worktree at `workdir`, the canonical path of its root.
    pub fn new(workdir: &str) -> (r: Self)
        ensures
            r@ == workdir@,
    {
        ToolContext { workdir: owned(workdir) }
    }

    /// The root of the worktree.
    pub fn workdir(&self) -> (r: &str)
        ensures
            r@ == self@,
    {
        self.workdir.as_str()
    }

    /// The path that `rel` stands for, relative or from the root, as long as it lies inside the
    /// worktree.
    pub fn resolve(&self, rel: &str) -> (r: Result<String, Error>)
        ensures
            path_result(r) == confined(self@, rel@),
    {
        let whole = path_join(self.workdir.as_str(), rel);
        let n = normalize(whole.as_str());
        let base = components(self.workdir.as_str());
        if n.is_below(&base) {
            Ok(n.text())
        } else {
            Err(Error::PathOutsideWorkdir(owned(rel)))
        }
    }

    /// `path` as it is seen from the root of the worktree.
    pub fn relativize(&self, path: &str) -> (r: String)
        ensures
            r@ == relative_to(path@, self@),
    {
        relativize_path(path, self.workdir.as_str())
    }
}

// ── Laws ──────────────────────────────────────────────────────────────────────

/// A resolved path never leaves the worktree: its parts begin with those of the root of the
/// worktree, and neither `.` nor `..` is among those behind.
pub proof fn resolved_stays_inside(workdir: Seq<char>, rel: Seq<char>)
    requires
        confined(workdir, rel) is Ok,
    ensures
        comps(workdir).is_prefix_of(comps(confined(workdir, rel)->Ok_0)),
        forall|i: int|
            0 <= i < comps(confined(workdir, rel)->Ok_0).len() ==> (#[trigger] comps(
                confined(workdir, rel)->Ok_0,
            )[i]) != CompView::Parent && comps(confined(workdir, rel)->Ok_0)[i] != CompView::Cur,
{
    let n = target(workdir, rel);
    normal_names(path_joined(workdir, rel));
    norm_text_comps(n);
}

/// The parts behind the first piece, in which a single dot counts nowhere.
pub open spec fn later_parts(segs: Seq<Seq<char>>) -> Seq<CompView>
    decreases segs.len(),
{
    if segs.len() == 0 {
        seq![]
    } else {
        match part_of(segs.last(), false) {
            Some(c) => later_parts(segs.drop_last()).push(c),
            None => later_parts(segs.drop_last()),
        }
    }
}

/// The parts of pieces, one list behind the other.
pub proof fn parts_of_sum(a: Seq<Seq<char>>, b: Seq<Seq<char>>)
    requires
        a.len() > 0,
    ensures
        parts_of(a + b) == parts_of(a) + later_parts(b),
    decreases b.len(),
{
    if b.len() == 0 {
        assert(a + b =~= a);
        assert(parts_of(a) + later_parts(b) =~= parts_of(a));
    } else {
        parts_of_sum(a, b.drop_last());
        assert((a + b).drop_last() =~= a + b.drop_last());
        assert((a + b).last() == b.last());
        assert(parts_of(a + b) =~= parts_of(a) + later_parts(b));
    }
}

/// Whether no part is a single dot.
pub open spec fn no_dot(parts: Seq<CompView>) -> bool {
    forall|i: int| 0 <= i < parts.len() ==> #[trigger] parts[i] != CompView::Cur
}

/// Without a single dot at the front, it makes no difference whether the first piece is the first.
pub proof fn later_parts_same(segs: Seq<Seq<char>>)
    requires
        no_dot(parts_of(segs)),
    ensures
        later_parts(segs) == parts_of(segs),
    decreases segs.len(),
{
    if segs.len() > 0 {
        let before = parts_of(segs.drop_last());
        let now = parts_of(segs);
        assert(no_dot(before)) by {
            assert forall|i: int| 0 <= i < before.len() implies #[trigger] before[i]
                != CompView::Cur by {
                assert(now[i] == before[i]);
            }
        }
        later_parts_same(segs.drop_last());
        if part_of(segs.last(), segs.len() == 1) is Some {
            assert(now[before.len() as int] == part_of(segs.last(), segs.len() == 1)->0);
        }
        if segs.len() == 1 {
            reveal_strlit(".");
            reveal_strlit("..");
            reveal_strlit("");
        }
    }
}

/// The parts of a relative path below `base`, where a separator is put between the two.
proof fn comps_of_open(base: Seq<char>, rel: Seq<char>)
    requires
        base.len() > 0,
        base.last() != '/',
        !is_rooted(rel),
        no_dot(comps(rel)),
    ensures
        comps(path_joined(base, rel)) == comps(base) + comps(rel),
{
    let whole = path_joined(base, rel);
    let tail = seq!['/'] + rel;
    assert(whole =~= base + tail);
    pieces_of_sum(base, tail, '/');
    pieces_hold_no_separator(base, '/');
    let segs = pieces(base, '/');
    let x = segs.last();
    let s = x + tail;
    let n = x.len() as int;
    assert(!segs[segs.len() - 1].contains('/'));
    assert forall|j: int| 0 <= j < n implies s[j] != '/' by {
        assert(x.contains(x[j]));
    }
    index_of_char_is(s, '/', n);
    assert(s.take(n) =~= x);
    assert(s.skip(n + 1) =~= rel);
    assert(pieces(s, '/') =~= seq![x] + pieces(rel, '/'));
    assert(segs.drop_last() + (seq![x] + pieces(rel, '/')) =~= segs + pieces(rel, '/'));
    parts_of_sum(segs, pieces(rel, '/'));
    assert(comps(rel) =~= parts_of(pieces(rel, '/')));
    later_parts_same(pieces(rel, '/'));
    assert(is_rooted(whole) == is_rooted(base));
    assert(comps(whole) =~= comps(base) + comps(rel));
}

/// The parts of a relative path below `base`, where `base` ends in a separator.
proof fn comps_of_closed(base: Seq<char>, rel: Seq<char>)
    requires
        is_rooted(base),
        base.last() == '/',
        !is_rooted(rel),
        no_dot(comps(rel)),
    ensures
        comps(path_joined(base, rel)) == comps(base) + comps(rel),
{
    reveal_strlit("");
    let whole = path_joined(base, rel);
    let body = base.drop_last();
    assert(base =~= body + seq!['/']);
    pieces_of_sum(body, seq!['/'], '/');
    pieces_hold_no_separator(body, '/');
    let front = pieces(body, '/');
    let x = front.last();
    let s = x + seq!['/'];
    let n = x.len() as int;
    assert(!front[front.len() - 1].contains('/'));
    assert forall|j: int| 0 <= j < n implies s[j] != '/' by {
        assert(x.contains(x[j]));
    }
    index_of_char_is(s, '/', n);
    let none = Seq::<char>::empty();
    index_of_char_is(none, '/', 0);
    assert(pieces(none, '/') =~= seq![none]);
    assert(s.take(n) =~= x);
    assert(s.skip(n + 1) =~= none);
    assert(pieces(s, '/') =~= seq![x, none]);
    assert(front.drop_last() + seq![x, none] =~= front.push(none));
    assert(pieces(base, '/') == front.push(none));
    pieces_of_sum(base, rel, '/');
    assert(front.push(none).drop_last() =~= front);
    assert(none + rel =~= rel);
    assert(pieces(whole, '/') == front + pieces(rel, '/'));
    parts_of_sum(front, pieces(rel, '/'));
    assert(none =~= ""@);
    assert(parts_of(front.push(none)) == parts_of(front));
    assert(comps(rel) =~= parts_of(pieces(rel, '/')));
    later_parts_same(pieces(rel, '/'));
    assert(comps(whole) =~= comps(base) + comps(rel));
}

/// The parts of a relative path below `base` stand behind those of `base`.
pub proof fn comps_of_joined(base: Seq<char>, rel: Seq<char>)
    requires
        base.len() > 0,
        base.last() != '/' || is_rooted(base),
        !is_rooted(rel),
        no_dot(comps(rel)),
    ensures
        comps(path_joined(base, rel)) == comps(base) + comps(rel),
{
    if base.last() == '/' {
        comps_of_closed(base, rel);
    } else {
        comps_of_open(base, rel);
    }
}

/// Names behind a path are names behind its normal form.
pub proof fn normal_of_names(a: Seq<CompView>, b: Seq<CompView>)
    requires
        forall|i: int| 0 <= i < b.len() ==> (#[trigger] b[i]) is Normal,
    ensures
        normal(a + b) == (NormView {
            names: normal(a).names + b.map_values(|c: CompView| c->Normal_0),
            ..normal(a)
        }),
    decreases b.len(),
{
    if b.len() == 0 {
        assert(a + b =~= a);
        assert(normal(a).names + b.map_values(|c: CompView| c->Normal_0) =~= normal(a).names);
    } else {
        let front = b.drop_last();
        assert forall|i: int| 0 <= i < front.len() implies (#[trigger] front[i]) is Normal by {
            assert(front[i] == b[i]);
        }
        normal_of_names(a, front);
        assert((a + b).drop_last() =~= a + front);
        assert((a + b).last() == b.last());
        assert(b[b.len() - 1] is Normal);
        assert(normal(a).names + b.map_values(|c: CompView| c->Normal_0) =~= (normal(a).names
            + front.map_values(|c: CompView| c->Normal_0)).push(b.last()->Normal_0));
    }
}

/// Whether `workdir` is the text of a path in normal form other than the root itself.
pub open spec fn is_canonical(workdir: Seq<char>) -> bool {
    &&& workdir.len() > 0
    &&& workdir.last() != '/'
    &&& norm_comps(normal(comps(workdir))) == comps(workdir)
}

/// A relative path that is made of names alone is resolved, to the file of that name in the
/// worktree.
pub proof fn plain_paths_resolve(workdir: Seq<char>, rel: Seq<char>)
    requires
        is_canonical(workdir),
        !is_rooted(rel),
        forall|i: int| 0 <= i < comps(rel).len() ==> (#[trigger] comps(rel)[i]) is Normal,
    ensures
        confined(workdir, rel) is Ok,
        comps(confined(workdir, rel)->Ok_0) == comps(workdir) + comps(rel),
{
    comps_of_joined(workdir, rel);
    normal_of_names(comps(workdir), comps(rel));
    let n = target(workdir, rel);
    let base = normal(comps(workdir));
    assert(norm_comps(n) =~= comps(workdir) + comps(rel)) by {
        assert forall|i: int| 0 <= i < comps(rel).len() implies #[trigger] comps(rel)[i]
            == CompView::Normal(comps(rel).map_values(|c: CompView| c->Normal_0)[i]) by {
            assert(comps(rel)[i] is Normal);
        }
        assert(norm_comps(base) == comps(workdir));
        assert(norm_comps(n) =~= norm_comps(base) + comps(rel));
    }
    assert(norm_comps(n).subrange(0, comps(workdir).len() as int) =~= comps(workdir));
    normal_names(path_joined(workdir, rel));
    norm_text_comps(n);
}

/// The parent of the root of the worktree is refused.
pub proof fn parent_is_refused(workdir: Seq<char>)
    requires
        is_canonical(workdir),
        normal(comps(workdir)).names.len() > 0,
    ensures
        confined(workdir, ".."@) == Err::<Seq<char>, ErrorView>(
            ErrorView::PathOutsideWorkdir(".."@),
        ),
{
    reveal_strlit("..");
    reveal_strlit(".");
    reveal_strlit("");
    let rel = ".."@;
    index_of_char_is(rel, '/', 2);
    assert(pieces(rel, '/') =~= seq![rel]);
    assert(seq![rel].drop_last() =~= seq![]);
    reveal_with_fuel(parts_of, 2);
    assert(parts_of(seq![rel]) =~= seq![CompView::Parent]);
    assert(comps(rel) =~= seq![CompView::Parent]);
    comps_of_joined(workdir, rel);
    let all = comps(workdir) + comps(rel);
    assert(all.drop_last() =~= comps(workdir));
    assert(all.last() == CompView::Parent);
    let base = normal(comps(workdir));
    let n = target(workdir, rel);
    assert(n == norm_with(base, CompView::Parent));
    assert(norm_comps(base).len() == comps(workdir).len());
    assert(norm_comps(n).len() + 1 == norm_comps(base).len());
}

} // verus!
