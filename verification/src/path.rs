//! Paths as text, with `/` between their parts.
use vstd::prelude::*;
use crate::search::{join, joined};
use crate::split::{index_of_char_is, pieces, pieces_hold_no_separator, pieces_of_sum, split_char};
use crate::text::{chars_of, owned, str_eq, views};

verus! {

// ── Components ────────────────────────────────────────────────────────────────

/// A part of a path.
#[derive(Debug)]
pub enum Comp {
    /// The root.
    Root,
    /// `.` at the front of a relative path.
    Cur,
    /// `..`.
    Parent,
    Normal(String),
}

/// What a [`Comp`] holds.
pub enum CompView {
    Root,
    Cur,
    Parent,
    Normal(Seq<char>),
}

impl View for Comp {
    type V = CompView;

    open spec fn view(&self) -> CompView {
        match self {
            Comp::Root => CompView::Root,
            Comp::Cur => CompView::Cur,
            Comp::Parent => CompView::Parent,
            Comp::Normal(s) => CompView::Normal(s@),
        }
    }
}

/// The views of a list of parts.
pub open spec fn comp_views(v: Seq<Comp>) -> Seq<CompView> {
    v.map_values(|c: Comp| c@)
}

/// Whether a path starts at the root.
pub open spec fn is_rooted(path: Seq<char>) -> bool {
    path.len() > 0 && path[0] == '/'
}

/// Whether a piece behind the first one says nothing: it is empty, or a single dot.
pub open spec fn is_idle(piece: Seq<char>) -> bool {
    piece == ""@ || piece == "."@
}

/// The part that a piece of a path stands for. A single dot counts at the front only.
pub open spec fn part_of(piece: Seq<char>, first: bool) -> Option<CompView> {
    if piece == ""@ {
        None
    } else if piece == "."@ {
        if first {
            Some(CompView::Cur)
        } else {
            None
        }
    } else if piece == ".."@ {
        Some(CompView::Parent)
    } else {
        Some(CompView::Normal(piece))
    }
}

/// The parts that the pieces of a path stand for.
pub open spec fn parts_of(segs: Seq<Seq<char>>) -> Seq<CompView>
    decreases segs.len(),
{
    if segs.len() == 0 {
        seq![]
    } else {
        match part_of(segs.last(), segs.len() == 1) {
            Some(c) => parts_of(segs.drop_last()).push(c),
            None => parts_of(segs.drop_last()),
        }
    }
}

/// The root, where a path starts there.
pub open spec fn root_of(path: Seq<char>) -> Seq<CompView> {
    if is_rooted(path) {
        seq![CompView::Root]
    } else {
        seq![]
    }
}

/// The parts of a path.
pub open spec fn comps(path: Seq<char>) -> Seq<CompView> {
    root_of(path) + parts_of(pieces(path, '/'))
}

/// Whether a path starts at the root.
pub fn is_absolute(path: &str) -> (r: bool)
    ensures
        r == is_rooted(path@),
{
    let chars = chars_of(path);
    chars.len() > 0 && chars[0] == '/'
}

/// The part that a piece of a path stands for.
fn piece_part(piece: &str, first: bool) -> (r: Option<Comp>)
    ensures
        r is Some <==> part_of(piece@, first) is Some,
        r matches Some(c) ==> part_of(piece@, first) == Some(c@),
{
    if str_eq(piece, "") {
        None
    } else if str_eq(piece, ".") {
        if first {
            Some(Comp::Cur)
        } else {
            None
        }
    } else if str_eq(piece, "..") {
        Some(Comp::Parent)
    } else {
        Some(Comp::Normal(owned(piece)))
    }
}

/// The parts of a path.
pub fn components(path: &str) -> (r: Vec<Comp>)
    ensures
        comp_views(r@) == comps(path@),
{
    let segs = split_char(path, '/');
    let ghost all = pieces(path@, '/');
    let mut out: Vec<Comp> = Vec::new();
    if is_absolute(path) {
        out.push(Comp::Root);
    }
    assert(comp_views(out@) =~= root_of(path@));
    assert(all.take(0) =~= seq![]);
    assert(comp_views(out@) =~= root_of(path@) + parts_of(all.take(0)));
    let mut i: usize = 0;
    while i < segs.len()
        invariant
            i <= segs.len(),
            views(segs@) == all,
            comp_views(out@) == root_of(path@) + parts_of(all.take(i as int)),
        decreases segs.len() - i,
    {
        assert(views(segs@)[i as int] == segs@[i as int]@);
        assert(all.take(i + 1).drop_last() =~= all.take(i as int));
        assert(all.take(i + 1).last() == segs@[i as int]@);
        let ghost before = out@;
        if let Some(c) = piece_part(segs[i].as_str(), i == 0) {
            out.push(c);
            assert(comp_views(out@) =~= comp_views(before).push(c@));
            assert(comp_views(out@) =~= root_of(path@) + parts_of(all.take(i + 1)));
        }
        i = i + 1;
    }
    assert(all.take(i as int) =~= all);
    out
}

// ── Joining ───────────────────────────────────────────────────────────────────

/// `rel` below `base`: a path from the root stands for itself; a separator is put between the two
/// unless `base` is empty or ends in one.
pub open spec fn path_joined(base: Seq<char>, rel: Seq<char>) -> Seq<char> {
    if is_rooted(rel) {
        rel
    } else if base.len() == 0 || base.last() == '/' {
        base + rel
    } else {
        base.push('/') + rel
    }
}

/// `rel` below `base`.
pub fn path_join(base: &str, rel: &str) -> (r: String)
    ensures
        r@ == path_joined(base@, rel@),
{
    if is_absolute(rel) {
        return owned(rel);
    }
    let chars = chars_of(base);
    let n = chars.len();
    let mut out = owned(base);
    if n > 0 && chars[n - 1] != '/' {
        out.push('/');
    }
    out.push_str(rel);
    out
}

// ── Normal form ───────────────────────────────────────────────────────────────

/// A path without `.` and `..`.
#[verifier::ext_equal]
pub struct NormView {
    pub rooted: bool,
    pub names: Seq<Seq<char>>,
}

/// The path with one more part: `.` changes nothing, `..` takes the last name away, where there
/// is one.
pub open spec fn norm_with(n: NormView, c: CompView) -> NormView {
    match c {
        CompView::Root => NormView { rooted: true, names: seq![] },
        CompView::Cur => n,
        CompView::Parent => NormView {
            names: if n.names.len() == 0 {
                n.names
            } else {
                n.names.drop_last()
            },
            ..n
        },
        CompView::Normal(s) => NormView { names: n.names.push(s), ..n },
    }
}

/// The path that a list of parts leads to.
pub open spec fn normal(parts: Seq<CompView>) -> NormView
    decreases parts.len(),
{
    if parts.len() == 0 {
        NormView { rooted: false, names: seq![] }
    } else {
        norm_with(normal(parts.drop_last()), parts.last())
    }
}

/// The parts of a path in normal form.
pub open spec fn norm_comps(n: NormView) -> Seq<CompView> {
    let names = n.names.map_values(|s: Seq<char>| CompView::Normal(s));
    if n.rooted {
        seq![CompView::Root] + names
    } else {
        names
    }
}

/// A path in normal form as text.
pub open spec fn norm_text(n: NormView) -> Seq<char> {
    if n.rooted {
        "/"@ + joined(n.names, "/"@)
    } else {
        joined(n.names, "/"@)
    }
}

/// A path without `.` and `..`.
pub struct NormPath {
    rooted: bool,
    names: Vec<String>,
}

impl View for NormPath {
    type V = NormView;

    closed spec fn view(&self) -> NormView {
        NormView { rooted: self.rooted, names: views(self.names@) }
    }
}

/// The normal form of a path, found without looking at the file system.
pub fn normalize(path: &str) -> (r: NormPath)
    ensures
        r@ == normal(comps(path@)),
{
    let parts = components(path);
    let ghost all = comps(path@);
    let mut n = NormPath { rooted: false, names: Vec::new() };
    assert(all.take(0) =~= seq![]);
    assert(n@ =~= normal(all.take(0)));
    let mut i: usize = 0;
    while i < parts.len()
        invariant
            i <= parts.len(),
            comp_views(parts@) == all,
            n@ == normal(all.take(i as int)),
        decreases parts.len() - i,
    {
        assert(comp_views(parts@)[i as int] == parts@[i as int]@);
        assert(all.take(i + 1).drop_last() =~= all.take(i as int));
        assert(all.take(i + 1).last() == parts@[i as int]@);
        let ghost before = n@;
        match &parts[i] {
            Comp::Root => {
                n = NormPath { rooted: true, names: Vec::new() };
            },
            Comp::Cur => {},
            Comp::Parent => {
                let _ = n.names.pop();
            },
            Comp::Normal(s) => {
                n.names.push(s.clone());
            },
        }
        assert(n@ =~= norm_with(before, parts@[i as int]@));
        i = i + 1;
    }
    assert(all.take(i as int) =~= all);
    n
}

impl NormPath {
    /// The path as text.
    pub fn text(&self) -> (r: String)
        ensures
            r@ == norm_text(self@),
    {
        let names = join(&self.names, "/");
        if self.rooted {
            crate::text::concat2("/", names.as_str())
        } else {
            names
        }
    }

    /// Whether the path lies below the path with the parts `base`, or is that path.
    pub fn is_below(&self, base: &Vec<Comp>) -> (r: bool)
        ensures
            r == comp_views(base@).is_prefix_of(norm_comps(self@)),
    {
        let ghost mine = norm_comps(self@);
        let ghost theirs = comp_views(base@);
        let offset: usize = if self.rooted {
            1
        } else {
            0
        };
        assert(mine.len() == offset + self.names@.len());
        let mut i: usize = 0;
        while i < base.len()
            invariant
                i <= base.len(),
                mine == norm_comps(self@),
                theirs == comp_views(base@),
                offset == (if self.rooted {
                    1int
                } else {
                    0
                }),
                mine.len() == offset + self.names@.len(),
                i <= mine.len(),
                forall|j: int| 0 <= j < i ==> theirs[j] == mine[j],
            decreases base.len() - i,
        {
            assert(theirs[i as int] == base@[i as int]@);
            let same = if i < offset {
                match &base[i] {
                    Comp::Root => true,
                    _ => false,
                }
            } else if i - offset < self.names.len() {
                assert(mine[i as int] == CompView::Normal(self.names@[i - offset]@));
                match &base[i] {
                    Comp::Normal(s) => str_eq(s.as_str(), self.names[i - offset].as_str()),
                    _ => false,
                }
            } else {
                false
            };
            if !same {
                proof {
                    if theirs.is_prefix_of(mine) {
                        assert(mine.subrange(0, theirs.len() as int)[i as int]
                            == theirs[i as int]);
                    }
                }
                return false;
            }
            i = i + 1;
        }
        assert(mine.subrange(0, theirs.len() as int) =~= theirs);
        true
    }
}

// ── Laws of the normal form ───────────────────────────────────────────────────

/// Whether `s` can be the name of a file.
pub open spec fn is_name(s: Seq<char>) -> bool {
    s != ""@ && s != "."@ && s != ".."@ && !s.contains('/')
}

/// The parts that pieces stand for are names, and not the root.
pub proof fn parts_are_names(segs: Seq<Seq<char>>)
    requires
        forall|i: int| 0 <= i < segs.len() ==> !(#[trigger] segs[i]).contains('/'),
    ensures
        forall|i: int|
            0 <= i < parts_of(segs).len() ==> (#[trigger] parts_of(segs)[i] matches CompView::Normal(s) ==> is_name(s)) && parts_of(segs)[i] != CompView::Root,
    decreases segs.len(),
{
    if segs.len() > 0 {
        assert forall|i: int| 0 <= i < segs.drop_last().len() implies !(
        #[trigger] segs.drop_last()[i]).contains('/') by {
            assert(segs.drop_last()[i] == segs[i]);
        }
        parts_are_names(segs.drop_last());
        assert(!segs[segs.len() - 1].contains('/'));
    }
}

proof fn normal_has_names(parts: Seq<CompView>)
    requires
        forall|i: int|
            0 <= i < parts.len() ==> (#[trigger] parts[i] matches CompView::Normal(s) ==> is_name(
                s,
            )),
    ensures
        forall|i: int|
            0 <= i < normal(parts).names.len() ==> is_name(#[trigger] normal(parts).names[i]),
    decreases parts.len(),
{
    if parts.len() > 0 {
        assert forall|i: int| 0 <= i < parts.drop_last().len() implies (
        #[trigger] parts.drop_last()[i] matches CompView::Normal(s) ==> is_name(s)) by {
            assert(parts.drop_last()[i] == parts[i]);
        }
        normal_has_names(parts.drop_last());
        assert(parts[parts.len() - 1] matches CompView::Normal(s) ==> is_name(s));
        let before = normal(parts.drop_last());
        let now = normal(parts);
        assert forall|i: int| 0 <= i < now.names.len() implies is_name(#[trigger] now.names[i]) by {
            if i < before.names.len() {
                assert(now.names[i] == before.names[i]);
            }
        }
    }
}

/// The names of a path in normal form are names of files: none is empty, `.` or `..`.
pub proof fn normal_names(path: Seq<char>)
    ensures
        forall|i: int|
            0 <= i < normal(comps(path)).names.len() ==> is_name(
                #[trigger] normal(comps(path)).names[i],
            ),
{
    let segs = pieces(path, '/');
    pieces_hold_no_separator(path, '/');
    parts_are_names(segs);
    let all = comps(path);
    let r = root_of(path);
    assert forall|i: int| 0 <= i < all.len() implies (#[trigger] all[i] matches CompView::Normal(
        s,
    ) ==> is_name(s)) by {
        if i >= r.len() {
            assert(all[i] == parts_of(segs)[i - r.len()]);
        }
    }
    normal_has_names(all);
}

/// Cutting two names with a separator between them gives the two names.
proof fn pieces_of_pair(a: Seq<char>, b: Seq<char>)
    requires
        !a.contains('/'),
        !b.contains('/'),
    ensures
        pieces(a + "/"@ + b, '/') == seq![a, b],
        pieces(b, '/') == seq![b],
{
    reveal_strlit("/");
    let s = a + "/"@ + b;
    let n = a.len() as int;
    assert forall|j: int| 0 <= j < n implies s[j] != '/' by {
        assert(a.contains(a[j]));
    }
    index_of_char_is(s, '/', n);
    assert(s.take(n) =~= a);
    assert(s.skip(n + 1) =~= b);
    assert forall|j: int| 0 <= j < b.len() implies b[j] != '/' by {
        assert(b.contains(b[j]));
    }
    index_of_char_is(b, '/', b.len() as int);
    assert(pieces(b, '/') =~= seq![b]);
    assert(pieces(s, '/') =~= seq![a, b]);
}

/// Joining names and cutting them again gives the names.
pub proof fn pieces_of_joined(names: Seq<Seq<char>>)
    requires
        names.len() > 0,
        forall|i: int| 0 <= i < names.len() ==> !(#[trigger] names[i]).contains('/'),
    ensures
        pieces(joined(names, "/"@), '/') == names,
    decreases names.len(),
{
    if names.len() == 1 {
        pieces_of_pair(names[0], names[0]);
        assert(names =~= seq![names[0]]);
    } else {
        let front = names.drop_last();
        let last = names.last();
        assert forall|i: int| 0 <= i < front.len() implies !(#[trigger] front[i]).contains(
            '/',
        ) by {
            assert(front[i] == names[i]);
        }
        pieces_of_joined(front);
        let a = joined(front, "/"@);
        let b = "/"@ + last;
        assert(joined(names, "/"@) =~= a + b);
        pieces_of_sum(a, b, '/');
        assert(!names[names.len() - 1].contains('/'));
        assert(!names[names.len() - 2].contains('/'));
        assert(front.last() == names[names.len() - 2]);
        pieces_of_pair(front.last(), last);
        assert(front.last() + b =~= front.last() + "/"@ + last);
        assert(names =~= front.drop_last() + seq![front.last(), last]);
    }
}

proof fn parts_of_names(head: Seq<Seq<char>>, names: Seq<Seq<char>>)
    requires
        head.len() <= 1,
        head.len() == 1 ==> head[0] == ""@,
        forall|i: int| 0 <= i < names.len() ==> is_name(#[trigger] names[i]),
    ensures
        parts_of(head + names) == names.map_values(|s: Seq<char>| CompView::Normal(s)),
    decreases names.len(),
{
    if names.len() == 0 {
        assert(head + names =~= head);
        if head.len() == 1 {
            assert(head.drop_last() =~= seq![]);
            assert(parts_of(head.drop_last()) =~= seq![]);
        }
        assert(parts_of(head + names) =~= seq![]);
    } else {
        let front = names.drop_last();
        assert forall|i: int| 0 <= i < front.len() implies is_name(#[trigger] front[i]) by {
            assert(front[i] == names[i]);
        }
        parts_of_names(head, front);
        assert((head + names).drop_last() =~= head + front);
        assert((head + names).last() == names.last());
        assert(is_name(names[names.len() - 1]));
        assert(parts_of(head + names) =~= names.map_values(
            |s: Seq<char>| CompView::Normal(s),
        ));
    }
}

/// The text of a path in normal form has the parts of that path, and nothing else.
pub proof fn norm_text_comps(n: NormView)
    requires
        forall|i: int| 0 <= i < n.names.len() ==> is_name(#[trigger] n.names[i]),
    ensures
        comps(norm_text(n)) == norm_comps(n),
{
    reveal_strlit("/");
    reveal_strlit("");
    let body = joined(n.names, "/"@);
    let text = norm_text(n);
    if n.names.len() > 0 {
        assert forall|i: int| 0 <= i < n.names.len() implies !(#[trigger] n.names[i]).contains(
            '/',
        ) by {
            assert(is_name(n.names[i]));
        }
        pieces_of_joined(n.names);
    } else {
        pieces_of_pair(""@, ""@);
        assert(body =~= ""@);
    }
    if n.rooted {
        assert(text[0] == '/');
        index_of_char_is(text, '/', 0);
        assert(text.take(0) =~= ""@);
        assert(text.skip(1) =~= body);
        assert(pieces(text, '/') =~= seq![""@] + pieces(body, '/'));
        if n.names.len() > 0 {
            parts_of_names(seq![""@], n.names);
        } else {
            let segs = seq![""@, ""@];
            assert(pieces(text, '/') =~= segs);
            assert(segs.drop_last() =~= seq![""@]);
            assert(seq![""@].drop_last() =~= seq![]);
            reveal_with_fuel(parts_of, 3);
            assert(parts_of(segs) =~= seq![]);
        }
        assert(comps(text) =~= norm_comps(n));
    } else {
        if n.names.len() > 0 {
            parts_of_names(seq![], n.names);
            assert(Seq::<Seq<char>>::empty() + n.names =~= n.names);
            assert(text[0] != '/') by {
                first_of_joined(n.names);
                let name = n.names[0];
                assert(is_name(name));
                if name.len() == 0 {
                    assert(name =~= ""@);
                }
                assert(name.contains(name[0]));
            }
        } else {
            assert(seq![""@].drop_last() =~= seq![]);
            reveal_with_fuel(parts_of, 2);
            assert(parts_of(seq![""@]) =~= seq![]);
        }
        assert(comps(text) =~= norm_comps(n));
    }
}

/// Joined names open with the first of them.
pub proof fn first_of_joined(names: Seq<Seq<char>>)
    requires
        names.len() > 0,
    ensures
        names[0].is_prefix_of(joined(names, "/"@)),
    decreases names.len(),
{
    if names.len() == 1 {
        assert(names[0].subrange(0, names[0].len() as int) =~= names[0]);
    } else {
        first_of_joined(names.drop_last());
        let a = joined(names.drop_last(), "/"@);
        let all = joined(names, "/"@);
        let n = names[0].len() as int;
        assert(a.subrange(0, n) =~= names[0]);
        assert(all.subrange(0, n) =~= a.subrange(0, n));
    }
}

} // verus!
