//! What the answers of the tools say of what was found and done.
use vstd::prelude::*;
use vstd::utf8::encode_utf8;
use crate::context::confined;
use crate::number::{decimal, signed_decimal};
use crate::order::{sorted_texts, text_leq, text_leq_is_total, text_lt};
use crate::path::{comps, CompView};
use crate::relative::relative_to;
use crate::search::{occurrences, occurrences_zero, occurs_at, occurs_in};
use crate::split::{lines_of, pieces};
use crate::text::trimmed_end;
use crate::text_laws::replacing_goes_from_the_left;
use crate::tool::ErrorView;
use crate::toolout::{bash_answer, both_outputs, dir_answer, edit_report, edited, glob_answer,
    goes_through_skipped, grep_answer, is_reported, is_skipped, listed_all, matches_in,
    one_per_line, reported, scanned, written, GrepView, GREP_MAX_MATCHES};
use crate::toolrun::regex_finds;
use crate::uri::pieces_of_joined_by;

verus! {

// ── Lists ─────────────────────────────────────────────────────────────────────

/// Texts without line feeds come back from the lines of the answer that lists them.
pub proof fn one_per_line_reads_back(texts: Seq<Seq<char>>, otherwise: Seq<char>)
    requires
        texts.len() > 0,
        forall|i: int| 0 <= i < texts.len() ==> !(#[trigger] texts[i]).contains('\n'),
    ensures
        pieces(one_per_line(texts, otherwise), '\n') == texts,
{
    reveal_strlit("\n");
    assert("\n"@ =~= seq!['\n']);
    pieces_of_joined_by(texts, '\n');
}

/// Whether texts stand in the order of a dictionary.
pub open spec fn ascending(texts: Seq<Seq<char>>) -> bool {
    forall|i: int, j: int|
        0 <= i < j < texts.len() ==> !text_lt(#[trigger] texts[j], #[trigger] texts[i])
}

proof fn sorting_keeps(texts: Seq<Seq<char>>)
    ensures
        ascending(sorted_texts(texts)),
        sorted_texts(texts).to_multiset() == texts.to_multiset(),
        sorted_texts(texts).len() == texts.len(),
        forall|x: Seq<char>| sorted_texts(texts).contains(x) <==> #[trigger] texts.contains(x),
{
    text_leq_is_total();
    texts.lemma_sort_by_ensures(text_leq());
    let sorted = sorted_texts(texts);
    assert forall|i: int, j: int| 0 <= i < j < sorted.len() implies !text_lt(
        #[trigger] sorted[j],
        #[trigger] sorted[i],
    ) by {
        assert(text_leq()(sorted[i], sorted[j]));
    }
    vstd::seq_lib::to_multiset_len(texts);
    vstd::seq_lib::to_multiset_len(sorted);
    assert forall|x: Seq<char>| sorted.contains(x) <==> #[trigger] texts.contains(x) by {
        vstd::seq_lib::to_multiset_contains(texts, x);
        vstd::seq_lib::to_multiset_contains(sorted, x);
    }
}

/// What `list_dir` answers names every entry of the directory once, in the order of a dictionary,
/// and nothing else; a slash behind a name marks a directory.
pub proof fn a_directory_is_listed_in_full(entries: Seq<(String, bool)>)
    requires
        entries.len() > 0,
        forall|i: int| 0 <= i < entries.len() ==> !(#[trigger] entries[i]).0@.contains('\n'),
    ensures
        ({
            let lines = pieces(dir_answer(entries), '\n');
            let names = entries.map_values(
                |e: (String, bool)|
                    if e.1 {
                        e.0@.push('/')
                    } else {
                        e.0@
                    },
            );
            &&& ascending(lines)
            &&& lines.to_multiset() == names.to_multiset()
        }),
{
    let names = entries.map_values(
        |e: (String, bool)|
            if e.1 {
                e.0@.push('/')
            } else {
                e.0@
            },
    );
    reveal_strlit("/");
    assert forall|i: int| 0 <= i < entries.len() implies listed_all(entries)[i] == names[i] by {
        assert(entries[i].0@ + "/"@ =~= entries[i].0@.push('/'));
    }
    assert(listed_all(entries) =~= names);
    assert forall|i: int| 0 <= i < names.len() implies !(#[trigger] names[i]).contains('\n') by {
        assert(!entries[i].0@.contains('\n'));
    }
    sorting_keeps(names);
    let sorted = sorted_texts(names);
    assert forall|i: int| 0 <= i < sorted.len() implies !(#[trigger] sorted[i]).contains('\n') by {
        assert(sorted.contains(sorted[i]));
        assert(names.contains(sorted[i]));
    }
    one_per_line_reads_back(sorted, "(directorio vacío)"@);
}

proof fn reported_are_those(workdir: Seq<char>, paths: Seq<Seq<char>>)
    ensures
        reported(workdir, paths) == paths.filter(|p: Seq<char>| is_reported(workdir, p)).map_values(
            |p: Seq<char>| relative_to(p, workdir),
        ),
    decreases paths.len(),
{
    reveal(Seq::filter);
    let keep = |p: Seq<char>| is_reported(workdir, p);
    let conv = |p: Seq<char>| relative_to(p, workdir);
    if paths.len() > 0 {
        reported_are_those(workdir, paths.drop_last());
        let before = paths.drop_last().filter(keep);
        assert(before.push(paths.last()).map_values(conv) =~= before.map_values(conv).push(
            conv(paths.last()),
        ));
    }
    assert(reported(workdir, paths) =~= paths.filter(keep).map_values(conv));
}

/// What `glob` answers are the paths that it was handed, as they are seen from the worktree and
/// in the order of a dictionary, but for those that lead outside and those that go through a
/// directory with the name `.git`, `target`, `node_modules` or `.venv`.
pub proof fn glob_answers_what_it_may(workdir: Seq<char>, paths: Seq<Seq<char>>)
    requires
        forall|i: int|
            0 <= i < paths.len() ==> !relative_to(#[trigger] paths[i], workdir).contains('\n'),
    ensures
        ({
            let lines = pieces(glob_answer(workdir, paths), '\n');
            let shown = paths.filter(
                |p: Seq<char>|
                    confined(workdir, p) is Ok && !comps(p).contains(CompView::Normal(".git"@))
                        && !comps(p).contains(CompView::Normal("target"@)) && !comps(p).contains(
                        CompView::Normal("node_modules"@),
                    ) && !comps(p).contains(CompView::Normal(".venv"@)),
            ).map_values(|p: Seq<char>| relative_to(p, workdir));
            if shown.len() == 0 {
                glob_answer(workdir, paths) == "(sin coincidencias)"@
            } else {
                ascending(lines) && lines.to_multiset() == shown.to_multiset()
            }
        }),
{
    let keep = |p: Seq<char>|
        confined(workdir, p) is Ok && !comps(p).contains(CompView::Normal(".git"@)) && !comps(
            p,
        ).contains(CompView::Normal("target"@)) && !comps(p).contains(
            CompView::Normal("node_modules"@),
        ) && !comps(p).contains(CompView::Normal(".venv"@));
    let conv = |p: Seq<char>| relative_to(p, workdir);
    assert forall|p: Seq<char>| #[trigger] is_reported(workdir, p) == keep(p) by {
        skipped_are_those(p);
    }
    reported_are_those(workdir, paths);
    same_filter(paths, |p: Seq<char>| is_reported(workdir, p), keep);
    let shown = paths.filter(keep).map_values(conv);
    assert(reported(workdir, paths) == shown);
    assert forall|i: int| 0 <= i < shown.len() implies !(#[trigger] shown[i]).contains('\n') by {
        let p = paths.filter(keep)[i];
        paths.lemma_filter_contains_rev(keep, p);
        let k = choose|k: int| 0 <= k < paths.len() && paths[k] == p;
        assert(!relative_to(paths[k], workdir).contains('\n'));
    }
    sorting_keeps(shown);
    let sorted = sorted_texts(shown);
    if shown.len() > 0 {
        assert forall|i: int| 0 <= i < sorted.len() implies !(#[trigger] sorted[i]).contains(
            '\n',
        ) by {
            assert(sorted.contains(sorted[i]));
            assert(shown.contains(sorted[i]));
        }
        one_per_line_reads_back(sorted, "(sin coincidencias)"@);
    }
}

proof fn same_filter(
    s: Seq<Seq<char>>,
    f: spec_fn(Seq<char>) -> bool,
    g: spec_fn(Seq<char>) -> bool,
)
    requires
        forall|x: Seq<char>| #[trigger] f(x) == g(x),
    ensures
        s.filter(f) == s.filter(g),
    decreases s.len(),
{
    reveal(Seq::filter);
    if s.len() > 0 {
        same_filter(s.drop_last(), f, g);
        assert(f(s.last()) == g(s.last()));
    }
}

proof fn skipped_are_those(p: Seq<char>)
    ensures
        goes_through_skipped(p) <==> comps(p).contains(CompView::Normal(".git"@)) || comps(
            p,
        ).contains(CompView::Normal("target"@)) || comps(p).contains(
            CompView::Normal("node_modules"@),
        ) || comps(p).contains(CompView::Normal(".venv"@)),
{
    let c = comps(p);
    if goes_through_skipped(p) {
        let i = choose|i: int|
            0 <= i < c.len() && (#[trigger] c[i] matches CompView::Normal(name) && is_skipped(
                name,
            ));
        assert(c.contains(c[i]));
    }
    assert forall|name: Seq<char>|
        is_skipped(name) && #[trigger] c.contains(
            CompView::Normal(name),
        ) implies goes_through_skipped(p) by {
        let i = choose|i: int| 0 <= i < c.len() && c[i] == CompView::Normal(name);
        assert(c[i] matches CompView::Normal(n) && is_skipped(n));
    }
}

// ── Searching ─────────────────────────────────────────────────────────────────

/// Whether `places` are the places of the lines that match: ascending, and all of them.
pub open spec fn are_hits(places: Seq<int>, lines: Seq<Seq<char>>, hits: Seq<bool>) -> bool {
    &&& forall|k: int|
        0 <= k < places.len() ==> 0 <= #[trigger] places[k] < lines.len() && places[k] < hits.len()
            && hits[places[k]]
    &&& forall|k: int, l: int|
        0 <= k < l < places.len() ==> #[trigger] places[k] < #[trigger] places[l]
    &&& forall|i: int|
        0 <= i < lines.len() && i < hits.len() && hits[i] ==> #[trigger] places.contains(i)
}

/// A match is reported as the file, the number of its line counted from one, and the line
/// without white space at its end.
pub open spec fn reports(text: Seq<char>, rel: Seq<char>, lines: Seq<Seq<char>>, i: int) -> bool {
    text == rel + ":"@ + decimal((i + 1) as nat) + ":"@ + trimmed_end(lines[i])
}

proof fn matches_are_hits(rel: Seq<char>, lines: Seq<Seq<char>>, hits: Seq<bool>) -> (places: Seq<
    int,
>)
    ensures
        are_hits(places, lines, hits),
        places.len() == matches_in(rel, lines, hits).len(),
        forall|k: int|
            0 <= k < places.len() ==> reports(
                #[trigger] matches_in(rel, lines, hits)[k],
                rel,
                lines,
                places[k],
            ),
    decreases lines.len(),
{
    if lines.len() == 0 {
        Seq::empty()
    } else {
        let front = lines.drop_last();
        let before = matches_are_hits(rel, front, hits);
        let m = matches_in(rel, front, hits);
        let all = matches_in(rel, lines, hits);
        let n = lines.len() - 1;
        if n < hits.len() && hits[n] {
            let places = before.push(n);
            assert forall|i: int| 0 <= i < lines.len() && i < hits.len() && hits[i] implies
                #[trigger] places.contains(i) by {
                if i < n {
                    assert(before.contains(i));
                    let k = choose|k: int| 0 <= k < before.len() && before[k] == i;
                    assert(places[k] == i);
                } else {
                    assert(places[before.len() as int] == i);
                }
            }
            assert forall|k: int| 0 <= k < places.len() implies reports(
                #[trigger] all[k],
                rel,
                lines,
                places[k],
            ) by {
                if k < before.len() {
                    assert(all[k] == m[k]);
                    assert(front[before[k]] == lines[before[k]]);
                }
            }
            places
        } else {
            assert forall|i: int| 0 <= i < lines.len() && i < hits.len() && hits[i] implies
                #[trigger] before.contains(i) by {
            }
            assert forall|k: int| 0 <= k < before.len() implies reports(
                #[trigger] all[k],
                rel,
                lines,
                before[k],
            ) by {
                assert(all[k] == m[k]);
                assert(front[before[k]] == lines[before[k]]);
            }
            before
        }
    }
}

/// Scanning a file keeps what was found before and puts behind it the lines of the file in which
/// the pattern finds something, from the first to the last and each with its number, as long as
/// there is room. Where there is no room for another one, a note says so and the search is full.
pub proof fn grep_reports_the_lines_that_match(
    g: GrepView,
    rel: Seq<char>,
    content: Seq<char>,
) -> (places: Seq<int>)
    requires
        !g.full,
        g.found.len() < GREP_MAX_MATCHES,
    ensures
        are_hits(
            places,
            lines_of(content),
            lines_of(content).map_values(|l: Seq<char>| regex_finds(g.pattern, l)),
        ),
        ({
            let n = g.found.len();
            let t = scanned(g, rel, content);
            &&& t.pattern == g.pattern
            &&& t.full <==> n + places.len() >= 200
            &&& t.found.len() == if t.full {
                201
            } else {
                n + places.len()
            }
            &&& t.found.take(n as int) == g.found
            &&& forall|k: int|
                n <= k < t.found.len() && k < 200 ==> reports(
                    #[trigger] t.found[k],
                    rel,
                    lines_of(content),
                    places[k - n],
                )
            &&& t.full ==> t.found.last() == "… (truncado en "@ + decimal(200)
                + " coincidencias)"@
        }),
{
    let lines = lines_of(content);
    let hits = lines.map_values(|l: Seq<char>| regex_finds(g.pattern, l));
    let places = matches_are_hits(rel, lines, hits);
    let more = matches_in(rel, lines, hits);
    let t = scanned(g, rel, content);
    let n = g.found.len();
    assert(t.found.take(n as int) =~= g.found);
    assert forall|k: int| n <= k < t.found.len() && k < 200 implies reports(
        #[trigger] t.found[k],
        rel,
        lines,
        places[k - n],
    ) by {
        assert(t.found[k] == more[k - n]);
    }
    places
}

/// A search that is full takes in nothing more.
pub proof fn a_full_search_stays(g: GrepView, rel: Seq<char>, content: Seq<char>)
    requires
        g.full,
    ensures
        scanned(g, rel, content) == g,
{
}

/// What `grep` answers has a line for each match, in their order; without one it says so.
pub proof fn grep_answers_what_it_found(g: GrepView)
    requires
        forall|i: int| 0 <= i < g.found.len() ==> !(#[trigger] g.found[i]).contains('\n'),
    ensures
        if g.found.len() == 0 {
            grep_answer(g) == "(sin coincidencias)"@
        } else {
            pieces(grep_answer(g), '\n') == g.found
        },
{
    if g.found.len() > 0 {
        one_per_line_reads_back(g.found, "(sin coincidencias)"@);
    }
}

// ── Writing, editing and running ──────────────────────────────────────────────

/// What `write_file` reports names the file and how many bytes its text has.
pub proof fn writing_is_reported(rel: Seq<char>, content: Seq<char>)
    ensures
        written(rel, content) == "Escrito "@ + rel + " ("@ + decimal(encode_utf8(content).len())
            + " bytes)."@,
{
}

/// Where the text to be replaced stands once, an edit puts the new text in its place and leaves
/// all that stands before and behind it.
pub proof fn an_edit_replaces_the_one_place(
    a: Seq<char>,
    old: Seq<char>,
    b: Seq<char>,
    new: Seq<char>,
    all: bool,
)
    requires
        old.len() > 0,
        forall|i: int| 0 <= i < a.len() ==> !#[trigger] occurs_at(a + old + b, old, i),
        !occurs_in(b, old),
    ensures
        edited(a + old + b, old, new, all) == Ok::<(Seq<char>, nat), ErrorView>((a + new + b, 1)),
{
    replacing_goes_from_the_left(a, old, b, new);
    occurrences_zero(b, old);
    crate::search::replaced_absent(b, old, new);
}

/// An edit of every place puts the new text in the first place and goes on behind it.
pub proof fn an_edit_of_all_goes_on(
    a: Seq<char>,
    old: Seq<char>,
    b: Seq<char>,
    new: Seq<char>,
    rest: Seq<char>,
    n: nat,
)
    requires
        old.len() > 0,
        forall|i: int| 0 <= i < a.len() ==> !#[trigger] occurs_at(a + old + b, old, i),
        edited(b, old, new, true) == Ok::<(Seq<char>, nat), ErrorView>((rest, n)),
    ensures
        edited(a + old + b, old, new, true) == Ok::<(Seq<char>, nat), ErrorView>(
            (a + new + rest, n + 1),
        ),
{
    replacing_goes_from_the_left(a, old, b, new);
}

/// What `bash` answers ends with how the command ended. Before that stand its two outputs as they
/// came, the second on a line of its own; a command without output is said to have none.
pub proof fn a_command_is_answered_in_full(
    out: Seq<char>,
    err: Option<Seq<char>>,
    code: Option<i32>,
) -> (between: Seq<char>)
    ensures
        ({
            let e: Seq<char> = match err {
                Some(e) => e,
                None => seq![],
            };
            let tail = "\n[código de salida: "@ + (match code {
                Some(c) => signed_decimal(c as int),
                None => "señal"@,
            }) + "]"@;
            &&& bash_answer(out, err, code) == (if out.len() + between.len() + e.len() == 0 {
                "(sin salida)"@
            } else {
                out + between + e
            }) + tail
            &&& between.len() <= 1
            &&& between.len() == 1 ==> between[0] == '\n' && err is Some
            &&& err is Some && out.len() > 0 ==> (out + between).last() == '\n'
            &&& out.len() == 0 || out.last() == '\n' ==> between.len() == 0
        }),
{
    let e: Seq<char> = match err {
        Some(e) => e,
        None => seq![],
    };
    let between: Seq<char> = if err is Some && out.len() > 0 && out.last() != '\n' {
        seq!['\n']
    } else {
        seq![]
    };
    let tail = "\n[código de salida: "@ + (match code {
        Some(c) => signed_decimal(c as int),
        None => "señal"@,
    }) + "]"@;
    assert(both_outputs(out, err) =~= out + between + e);
    let text: Seq<char> = if out.len() + between.len() + e.len() == 0 {
        "(sin salida)"@
    } else {
        out + between + e
    };
    assert(bash_answer(out, err, code) =~= text + tail);
    between
}

/// What an edit reports names the file and how many places were changed. One that could mean any
/// of several places is refused, and told how many there are.
pub proof fn an_edit_says_how_many(
    rel: Seq<char>,
    n: nat,
    original: Seq<char>,
    old: Seq<char>,
    new: Seq<char>,
)
    requires
        occurrences(original, old) > 1,
    ensures
        edit_report(rel, n) == "Editado "@ + rel + " ("@ + decimal(n) + " reemplazo(s))."@,
        edited(original, old, new, true) matches Ok((_, k)) && k == occurrences(original, old),
        edited(original, old, new, false) == Err::<(Seq<char>, nat), ErrorView>(
            ErrorView::Edit(
                "`old_string` aparece "@ + decimal(occurrences(original, old))
                    + " veces; sé más específico o usa replace_all"@,
            ),
        ),
{
}

/// Where there is nothing to answer, the answer says so: of a directory that it is empty, of a
/// search that it found nothing.
pub proof fn an_empty_answer_says_so(
    entries: Seq<(String, bool)>,
    workdir: Seq<char>,
    paths: Seq<Seq<char>>,
)
    requires
        entries.len() == 0,
        forall|i: int| 0 <= i < paths.len() ==> confined(workdir, #[trigger] paths[i]) is Err,
    ensures
        dir_answer(entries) == "(directorio vacío)"@,
        glob_answer(workdir, paths) == "(sin coincidencias)"@,
{
    assert(listed_all(entries) =~= seq![]);
    sorting_keeps(listed_all(entries));
    nothing_is_reported(workdir, paths);
    sorting_keeps(reported(workdir, paths));
}

proof fn nothing_is_reported(workdir: Seq<char>, paths: Seq<Seq<char>>)
    requires
        forall|i: int| 0 <= i < paths.len() ==> confined(workdir, #[trigger] paths[i]) is Err,
    ensures
        reported(workdir, paths).len() == 0,
    decreases paths.len(),
{
    if paths.len() > 0 {
        let before = paths.drop_last();
        assert forall|i: int| 0 <= i < before.len() implies confined(
            workdir,
            #[trigger] before[i],
        ) is Err by {
            assert(before[i] == paths[i]);
        }
        nothing_is_reported(workdir, before);
        assert(confined(workdir, paths[paths.len() - 1]) is Err);
    }
}

} // verus!
