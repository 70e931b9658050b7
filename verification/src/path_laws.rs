//! What a path leads to.
use vstd::prelude::*;
use crate::context::confined;
use crate::dirs::{data_base, snapshots_path};
use crate::number::{decimal, decimal_injective, signed_decimal};
use crate::path::{comps, is_rooted, norm_comps, normal, path_joined, CompView};
use crate::tool::ErrorView;

verus! {

proof fn normal_goes_on(a: Seq<CompView>, b: Seq<CompView>, rest: Seq<CompView>)
    requires
        normal(a) == normal(b),
    ensures
        normal(a + rest) == normal(b + rest),
    decreases rest.len(),
{
    if rest.len() == 0 {
        assert(a + rest =~= a);
        assert(b + rest =~= b);
    } else {
        normal_goes_on(a, b, rest.drop_last());
        assert((a + rest).drop_last() =~= a + rest.drop_last());
        assert((b + rest).drop_last() =~= b + rest.drop_last());
    }
}

/// A step into a directory and back out of it leads nowhere, and neither does a single dot.
pub proof fn there_and_back(parts: Seq<CompView>, name: Seq<char>, rest: Seq<CompView>)
    ensures
        normal(parts + seq![CompView::Normal(name), CompView::Parent] + rest) == normal(
            parts + rest,
        ),
        normal(parts + seq![CompView::Cur] + rest) == normal(parts + rest),
{
    let there = parts.push(CompView::Normal(name));
    let back = parts + seq![CompView::Normal(name), CompView::Parent];
    assert(there.drop_last() =~= parts);
    assert(back.drop_last() =~= there);
    assert(normal(there).names.drop_last() =~= normal(parts).names);
    assert(normal(back) =~= normal(parts));
    normal_goes_on(back, parts, rest);
    let dot = parts + seq![CompView::Cur];
    assert(dot.drop_last() =~= parts);
    assert(normal(dot) == normal(parts));
    normal_goes_on(dot, parts, rest);
}

/// Names lead to themselves, in their order; there is nothing above the root.
pub proof fn names_lead_down(parts: Seq<CompView>, name: Seq<char>)
    ensures
        normal(parts.push(CompView::Normal(name))).names == normal(parts).names.push(name),
        normal(parts.push(CompView::Normal(name))).rooted == normal(parts).rooted,
        normal(seq![CompView::Root, CompView::Parent]) == normal(seq![CompView::Root]),
        normal(seq![CompView::Root]).rooted,
        normal(seq![CompView::Root]).names.len() == 0,
{
    assert(parts.push(CompView::Normal(name)).drop_last() =~= parts);
    let root = seq![CompView::Root];
    assert(root.drop_last() =~= seq![]);
    let up = seq![CompView::Root, CompView::Parent];
    assert(up.drop_last() =~= root);
    assert(normal(up) =~= normal(root));
}

/// A path is allowed exactly where it leads inside the worktree, however it is written: a rooted
/// one by itself, any other from the root of the worktree. One that is refused is named as it was
/// given.
pub proof fn where_a_path_leads_decides(workdir: Seq<char>, rel: Seq<char>)
    ensures
        ({
            let parts = comps(
                if is_rooted(rel) {
                    rel
                } else {
                    path_joined(workdir, rel)
                },
            );
            let inside = comps(workdir).is_prefix_of(norm_comps(normal(parts)));
            &&& inside ==> confined(workdir, rel) is Ok
            &&& !inside ==> confined(workdir, rel) == Err::<Seq<char>, ErrorView>(
                ErrorView::PathOutsideWorkdir(rel),
            )
        }),
{
}

/// Two projects keep their saved states in different directories.
pub proof fn projects_are_kept_apart(
    a: i64,
    b: i64,
    xdg: Option<Seq<char>>,
    home: Option<Seq<char>>,
)
    requires
        snapshots_path(a, xdg, home) == snapshots_path(b, xdg, home),
    ensures
        a == b,
{
    let base = match data_base(xdg, home) {
        Some(b) => b,
        None => path_joined(""@, ".local/share"@),
    };
    let dir = path_joined(path_joined(base, "xiě-code"@), "snapshots"@);
    let x = signed_decimal(a as int);
    let y = signed_decimal(b as int);
    signed_is_plain(a as int);
    signed_is_plain(b as int);
    let n: int = if dir.len() == 0 || dir.last() == '/' {
        dir.len() as int
    } else {
        dir.len() as int + 1
    };
    assert(path_joined(dir, x).skip(n) =~= x);
    assert(path_joined(dir, y).skip(n) =~= y);
    signed_injective(a as int, b as int);
}

proof fn signed_is_plain(n: int)
    ensures
        !is_rooted(signed_decimal(n)),
{
    let m: nat = if n < 0 {
        (-n) as nat
    } else {
        n as nat
    };
    crate::number::decimal_digits(m);
}

proof fn signed_injective(a: int, b: int)
    requires
        signed_decimal(a) == signed_decimal(b),
    ensures
        a == b,
{
    let m: nat = if a < 0 {
        (-a) as nat
    } else {
        a as nat
    };
    let n: nat = if b < 0 {
        (-b) as nat
    } else {
        b as nat
    };
    crate::number::decimal_digits(m);
    crate::number::decimal_digits(n);
    if a < 0 {
        assert(signed_decimal(a)[0] == '-');
        assert(signed_decimal(a).skip(1) =~= decimal(m));
    }
    if b < 0 {
        assert(signed_decimal(b)[0] == '-');
        assert(signed_decimal(b).skip(1) =~= decimal(n));
    }
    decimal_injective_if(m, n);
}

proof fn decimal_injective_if(m: nat, n: nat)
    ensures
        decimal(m) == decimal(n) ==> m == n,
{
    if decimal(m) == decimal(n) {
        decimal_injective(m, n);
    }
}

/// Data is kept where the user says; where the user does not say, below the user's own directory.
/// The saved states of a project are in a directory of their own below that.
pub proof fn data_is_kept_where_the_user_says(
    v: Seq<char>,
    home: Option<Seq<char>>,
    h: Seq<char>,
    project: i64,
)
    requires
        v.len() > 0,
        v.last() != '/',
        h.len() > 0,
        h.last() != '/',
    ensures
        data_base(Some(v), home) == Some(v),
        data_base(None, Some(h)) == Some(h + "/.local/share"@),
        data_base(Some(seq![]), Some(h)) == Some(h + "/.local/share"@),
        data_base(None, None) is None,
        snapshots_path(project, Some(v), home) == v + "/xiě-code/snapshots/"@ + signed_decimal(
            project as int,
        ),
{
    reveal_strlit(".local/share");
    reveal_strlit("/.local/share");
    reveal_strlit("xiě-code");
    reveal_strlit("snapshots");
    reveal_strlit("/xiě-code/snapshots/");
    signed_is_plain(project as int);
    assert(h.push('/') + ".local/share"@ =~= h + "/.local/share"@);
    let app = path_joined(v, "xiě-code"@);
    assert(app =~= v.push('/') + "xiě-code"@);
    assert(app.last() == 'e');
    let all = path_joined(app, "snapshots"@);
    assert(all =~= app.push('/') + "snapshots"@);
    assert(all.last() == 's');
    assert(path_joined(all, signed_decimal(project as int)) =~= v + "/xiě-code/snapshots/"@
        + signed_decimal(project as int));
}

} // verus!
