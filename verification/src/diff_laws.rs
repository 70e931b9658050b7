//! What a patch that was read says: its files, and their lines with their numbers.
use vstd::prelude::*;
use crate::diff::{files_closed, hunk_lines, hunk_start, is_file_note, line_class, line_markup,
    opened_file, patch_after, patch_files, patch_start, patch_with, DiffFileView, DiffLineKind,
    DiffLineView, PatchView};
use crate::markup::escaped;
use crate::number::{decimal, decimal_digits, decimal_parses_back};
use crate::split::{index_of_char_is, pieces, words};
use crate::text::is_white;
use crate::text_laws::{ended_lines, first_word, is_line, is_word, lines_are_read_back,
    padding_keeps_the_text, words_behind_white};

verus! {

// ── Reading on ────────────────────────────────────────────────────────────────

/// What was read after more lines.
spec fn read_on(p: PatchView, lines: Seq<Seq<char>>) -> PatchView
    decreases lines.len(),
{
    if lines.len() == 0 {
        p
    } else {
        patch_with(read_on(p, lines.drop_last()), lines.last())
    }
}

proof fn reading_goes_on(a: Seq<Seq<char>>, b: Seq<Seq<char>>)
    ensures
        patch_after(a + b) == read_on(patch_after(a), b),
    decreases b.len(),
{
    if b.len() == 0 {
        assert(a + b =~= a);
    } else {
        reading_goes_on(a, b.drop_last());
        assert((a + b).drop_last() =~= a + b.drop_last());
    }
}

// ── The lines of a hunk ───────────────────────────────────────────────────────

/// Whether `line` holds a line of a file, behind a mark that says what became of it.
pub open spec fn is_body_line(line: Seq<char>) -> bool {
    &&& line.len() > 0
    &&& line[0] == '+' || line[0] == '-' || line[0] == ' '
    &&& !"+++"@.is_prefix_of(line)
    &&& !"---"@.is_prefix_of(line)
}

/// How many of the lines are in the old file.
pub open spec fn old_lines(body: Seq<Seq<char>>) -> nat
    decreases body.len(),
{
    if body.len() == 0 {
        0
    } else {
        old_lines(body.drop_last()) + if body.last()[0] == '+' {
            0nat
        } else {
            1nat
        }
    }
}

/// How many of the lines are in the new file.
pub open spec fn new_lines(body: Seq<Seq<char>>) -> nat
    decreases body.len(),
{
    if body.len() == 0 {
        0
    } else {
        new_lines(body.drop_last()) + if body.last()[0] == '-' {
            0nat
        } else {
            1nat
        }
    }
}

proof fn counts_are_bounded(body: Seq<Seq<char>>)
    ensures
        old_lines(body) <= body.len(),
        new_lines(body) <= body.len(),
    decreases body.len(),
{
    if body.len() > 0 {
        counts_are_bounded(body.drop_last());
    }
}

/// Whether `l` is the line `line` of a hunk, with these numbers on the sides on which it stands.
pub open spec fn is_numbered(l: DiffLineView, line: Seq<char>, old: nat, new: nat) -> bool {
    &&& l.text == line.skip(1)
    &&& l.kind == if line[0] == '+' {
        DiffLineKind::Addition
    } else if line[0] == '-' {
        DiffLineKind::Deletion
    } else {
        DiffLineKind::Context
    }
    &&& if line[0] == '+' {
        l.old is None
    } else {
        l.old matches Some(n) && n == old
    }
    &&& if line[0] == '-' {
        l.new is None
    } else {
        l.new matches Some(n) && n == new
    }
}

proof fn body_line_is_no_header(line: Seq<char>)
    requires
        is_body_line(line),
    ensures
        opened_file(line) is None,
        !"@@"@.is_prefix_of(line),
        !is_file_note(line),
{
    reveal_strlit("diff --git ");
    reveal_strlit("@@");
    reveal_strlit("index ");
    reveal_strlit("new file mode ");
    reveal_strlit("deleted file mode ");
    assert("diff --git "@[0] == 'd');
    assert("@@"@[0] == '@');
    assert("index "@[0] == 'i');
    assert("new file mode "@[0] == 'n');
    assert("deleted file mode "@[0] == 'd');
}

proof fn body_is_numbered(p: PatchView, body: Seq<Seq<char>>, o: nat, n: nat)
    requires
        p.current is Some,
        p.old matches Some(x) && x == o,
        p.new matches Some(x) && x == n,
        o + body.len() <= usize::MAX,
        n + body.len() <= usize::MAX,
        forall|k: int| 0 <= k < body.len() ==> is_body_line(#[trigger] body[k]),
    ensures
        ({
            let q = read_on(p, body);
            let was = p.current->0;
            &&& q.files == p.files
            &&& q.old matches Some(x) && x == o + old_lines(body)
            &&& q.new matches Some(x) && x == n + new_lines(body)
            &&& q.current matches Some(f) && {
                &&& f.path == was.path
                &&& f.lines.len() == was.lines.len() + body.len()
                &&& forall|k: int| 0 <= k < was.lines.len() ==> f.lines[k] == was.lines[k]
                &&& forall|k: int|
                    0 <= k < body.len() ==> is_numbered(
                        #[trigger] f.lines[was.lines.len() + k],
                        body[k],
                        o + old_lines(body.take(k)),
                        n + new_lines(body.take(k)),
                    )
            }
        }),
    decreases body.len(),
{
    if body.len() > 0 {
        let front = body.drop_last();
        let line = body.last();
        assert forall|k: int| 0 <= k < front.len() implies is_body_line(#[trigger] front[k]) by {
            assert(front[k] == body[k]);
        }
        body_is_numbered(p, front, o, n);
        assert(is_body_line(body[body.len() - 1]));
        body_line_is_no_header(line);
        counts_are_bounded(front);
        let q = read_on(p, front);
        let r = read_on(p, body);
        let was = p.current->0;
        let m = was.lines.len();
        assert(r == patch_with(q, line));
        assert(body.take(front.len() as int) =~= front);
        assert forall|k: int| 0 <= k < body.len() implies is_numbered(
            #[trigger] r.current->0.lines[m + k],
            body[k],
            o + old_lines(body.take(k)),
            n + new_lines(body.take(k)),
        ) by {
            if k < front.len() {
                assert(body.take(k) =~= front.take(k));
                assert(r.current->0.lines[m + k] == q.current->0.lines[m + k]);
                assert(front[k] == body[k]);
            }
        }
    }
}

/// Behind the header of a hunk, whatever came before it, the lines of the hunk are put behind
/// those of the file, each with its text, with what became of it and with its numbers: on either
/// side they count on from the number that the header gives for it.
pub proof fn a_hunk_is_numbered_from_its_header(
    before: Seq<Seq<char>>,
    header: Seq<char>,
    body: Seq<Seq<char>>,
    o: nat,
    n: nat,
)
    requires
        patch_after(before).current is Some,
        "@@"@.is_prefix_of(header),
        hunk_lines(header) == Some((o, n)),
        o + body.len() <= usize::MAX,
        n + body.len() <= usize::MAX,
        forall|k: int| 0 <= k < body.len() ==> is_body_line(#[trigger] body[k]),
    ensures
        ({
            let was = patch_after(before).current->0;
            let q = patch_after(before + (seq![header] + body));
            &&& q.files == patch_after(before).files
            &&& q.current matches Some(f) && {
                &&& f.path == was.path
                &&& f.lines.len() == was.lines.len() + body.len()
                &&& forall|k: int| 0 <= k < was.lines.len() ==> f.lines[k] == was.lines[k]
                &&& forall|k: int|
                    0 <= k < body.len() ==> is_numbered(
                        #[trigger] f.lines[was.lines.len() + k],
                        body[k],
                        o + old_lines(body.take(k)),
                        n + new_lines(body.take(k)),
                    )
            }
        }),
{
    reveal_strlit("@@");
    reveal_strlit("diff --git ");
    assert("@@"@[0] == '@');
    assert("diff --git "@[0] == 'd');
    assert(header[0] == '@') by {
        assert(header.subrange(0, 2)[0] == header[0]);
    }
    assert(opened_file(header) is None);
    let p = patch_after(before);
    let h = patch_with(p, header);
    assert(before.push(header).drop_last() =~= before);
    assert(patch_after(before.push(header)) == h);
    assert(before + (seq![header] + body) =~= before.push(header) + body);
    reading_goes_on(before.push(header), body);
    body_is_numbered(h, body, o, n);
}

/// The numbers of a hunk are read from its header, whatever stands behind each of them up to the
/// next white space, as long as that begins with a comma.
pub proof fn a_hunk_header_gives_its_numbers(
    o: nat,
    old_rest: Seq<char>,
    n: nat,
    new_rest: Seq<char>,
    rest: Seq<char>,
)
    requires
        o <= usize::MAX,
        n <= usize::MAX,
        old_rest.len() > 0 ==> old_rest[0] == ',',
        new_rest.len() > 0 ==> new_rest[0] == ',',
        forall|i: int| 0 <= i < old_rest.len() ==> !is_white(#[trigger] old_rest[i]),
        forall|i: int| 0 <= i < new_rest.len() ==> !is_white(#[trigger] new_rest[i]),
        rest.len() > 0 ==> is_white(rest[0]),
    ensures
        hunk_lines(
            "@@ -"@ + decimal(o) + old_rest + " +"@ + decimal(n) + new_rest + rest,
        ) == Some((o, n)),
{
    let a = seq!['-'] + decimal(o) + old_rest;
    let b = seq!['+'] + decimal(n) + new_rest;
    side_of_a_hunk('-', o, old_rest);
    side_of_a_hunk('+', n, new_rest);
    header_text(decimal(o), old_rest, decimal(n), new_rest, rest);
    header_words(a, b, rest);
}

proof fn header_text(
    o: Seq<char>,
    old_rest: Seq<char>,
    n: Seq<char>,
    new_rest: Seq<char>,
    rest: Seq<char>,
)
    ensures
        "@@ -"@ + o + old_rest + " +"@ + n + new_rest + rest == seq!['@', '@'] + (seq![' '] + ((seq![
            '-',
        ] + o + old_rest) + (seq![' '] + ((seq!['+'] + n + new_rest) + rest)))),
{
    reveal_strlit("@@ -");
    reveal_strlit(" +");
    assert("@@ -"@ =~= seq!['@', '@'] + seq![' '] + seq!['-']);
    assert(" +"@ =~= seq![' '] + seq!['+']);
    let b = seq!['+'] + n + new_rest;
    let x = "@@ -"@ + o + old_rest;
    assert(x + " +"@ + n + new_rest + rest =~= x + (seq![' '] + (b + rest)));
    let a = seq!['-'] + o + old_rest;
    assert(x =~= seq!['@', '@'] + (seq![' '] + a));
    let t = seq![' '] + (b + rest);
    assert((seq!['@', '@'] + (seq![' '] + a)) + t =~= seq!['@', '@'] + (seq![' '] + (a + t)));
}

proof fn header_words(a: Seq<char>, b: Seq<char>, rest: Seq<char>)
    requires
        is_word(a),
        is_word(b),
        rest.len() > 0 ==> is_white(rest[0]),
    ensures
        ({
            let w = words(seq!['@', '@'] + (seq![' '] + (a + (seq![' '] + (b + rest)))));
            w.len() >= 3 && w[1] == a && w[2] == b
        }),
{
    let at: Seq<char> = seq!['@', '@'];
    let t2 = seq![' '] + (b + rest);
    let t1 = seq![' '] + (a + t2);
    assert(is_word(at));
    first_word(at, t1);
    words_behind_white(' ', a + t2);
    first_word(a, t2);
    words_behind_white(' ', b + rest);
    first_word(b, rest);
    let w = words(at + t1);
    assert(w == seq![at] + (seq![a] + (seq![b] + words(rest))));
}

proof fn side_of_a_hunk(sign: char, n: nat, rest: Seq<char>)
    requires
        n <= usize::MAX,
        sign == '-' || sign == '+',
        rest.len() > 0 ==> rest[0] == ',',
        forall|i: int| 0 <= i < rest.len() ==> !is_white(#[trigger] rest[i]),
    ensures
        is_word(seq![sign] + decimal(n) + rest),
        hunk_start(seq![sign] + decimal(n) + rest) == Some(n),
{
    let d = decimal(n);
    let part = seq![sign] + d + rest;
    decimal_digits(n);
    decimal_parses_back(n);
    assert forall|i: int| 0 <= i < part.len() implies !is_white(#[trigger] part[i]) by {
        if 1 <= i < 1 + d.len() {
            assert(part[i] == d[i - 1]);
        } else if i >= 1 + d.len() {
            assert(part[i] == rest[i - 1 - d.len()]);
        }
    }
    let t = part.skip(1);
    assert(t =~= d + rest);
    assert forall|i: int| 0 <= i < d.len() implies t[i] != ',' by {
        assert(t[i] == d[i]);
    }
    index_of_char_is(t, ',', d.len() as int);
    assert(t.take(d.len() as int) =~= d);
    if rest.len() == 0 {
        assert(t =~= d);
    }
    assert(pieces(t, ',')[0] == d);
}

// ── Files ─────────────────────────────────────────────────────────────────────

/// The header of a file gives its path: the one behind `b/`.
pub proof fn a_file_header_gives_its_path(other: Seq<char>, path: Seq<char>, rest: Seq<char>)
    requires
        is_word(other),
        is_word(path),
        rest.len() > 0 ==> is_white(rest[0]),
    ensures
        opened_file("diff --git "@ + other + " b/"@ + path + rest) == Some(path),
{
    reveal_strlit("diff --git ");
    reveal_strlit(" b/");
    reveal_strlit("b/");
    let line = "diff --git "@ + other + " b/"@ + path + rest;
    let named = "b/"@ + path;
    let tail = seq![' '] + (named + rest);
    let header = other + tail;
    assert(line =~= "diff --git "@ + header);
    assert("diff --git "@.is_prefix_of(line)) by {
        assert(line.subrange(0, 11) =~= "diff --git "@);
    }
    assert(line.skip(11) =~= header);
    assert forall|i: int| 0 <= i < named.len() implies !is_white(#[trigger] named[i]) by {
        if i >= 2 {
            assert(named[i] == path[i - 2]);
        }
    }
    first_word(other, tail);
    words_behind_white(' ', named + rest);
    first_word(named, rest);
    let w = words(header);
    assert(w =~= seq![other] + (seq![named] + words(rest)));
    assert(w[1] == named);
    assert("b/"@.is_prefix_of(named)) by {
        assert(named.subrange(0, 2) =~= "b/"@);
    }
    assert(named.skip(2) =~= path);
}

proof fn files_stay(p: PatchView, lines: Seq<Seq<char>>)
    requires
        p.current is Some,
        forall|k: int| 0 <= k < lines.len() ==> opened_file(#[trigger] lines[k]) is None,
    ensures
        read_on(p, lines).files == p.files,
        read_on(p, lines).current is Some,
        read_on(p, lines).current->0.path == p.current->0.path,
        read_on(PatchView { files: seq![], ..p }, lines) == (PatchView {
            files: seq![],
            ..read_on(p, lines)
        }),
    decreases lines.len(),
{
    if lines.len() > 0 {
        let front = lines.drop_last();
        assert forall|k: int| 0 <= k < front.len() implies opened_file(
            #[trigger] front[k],
        ) is None by {
            assert(front[k] == lines[k]);
        }
        files_stay(p, front);
        assert(opened_file(lines[lines.len() - 1]) is None);
    }
}

/// A patch has the files that its headers name, in their order: each with the lines behind its
/// header, up to the next one, and unless it has none.
pub proof fn each_file_is_read_by_itself(
    before: Seq<Seq<char>>,
    header: Seq<char>,
    lines: Seq<Seq<char>>,
    path: Seq<char>,
)
    requires
        opened_file(header) == Some(path),
        forall|k: int| 0 <= k < lines.len() ==> opened_file(#[trigger] lines[k]) is None,
    ensures
        ({
            let alone = files_closed(patch_after(seq![header] + lines));
            &&& files_closed(patch_after(before + (seq![header] + lines))) == files_closed(
                patch_after(before),
            ) + alone
            &&& alone.len() == 0 || (alone.len() == 1 && alone[0].path == path
                && alone[0].lines.len() > 0)
        }),
{
    let fresh = PatchView {
        files: seq![],
        current: Some(DiffFileView { path, lines: seq![] }),
        old: None,
        new: None,
    };
    let p = patch_with(patch_after(before), header);
    let q = patch_with(patch_start(), header);
    let none = Seq::<Seq<char>>::empty();
    assert(patch_after(none) == patch_start());
    assert(seq![header].drop_last() =~= none);
    assert(patch_after(seq![header]) == q);
    assert(files_closed(patch_start()) =~= seq![]);
    assert(q =~= fresh);
    assert(p =~= PatchView { files: files_closed(patch_after(before)), ..fresh });
    assert(before.push(header).drop_last() =~= before);
    assert(patch_after(before.push(header)) == p);
    assert(before + (seq![header] + lines) =~= before.push(header) + lines);
    reading_goes_on(before.push(header), lines);
    reading_goes_on(seq![header], lines);
    files_stay(p, lines);
    files_stay(q, lines);
    assert(PatchView { files: seq![], ..p } =~= q);
    let a = files_closed(read_on(p, lines));
    let alone = files_closed(read_on(q, lines));
    assert(a =~= files_closed(patch_after(before)) + alone);
}

/// A patch is read from its first line to its last, whether or not that has an end.
pub proof fn a_patch_is_read_to_its_end(lines: Seq<Seq<char>>, rest: Seq<char>)
    requires
        forall|i: int| 0 <= i < lines.len() ==> is_line(#[trigger] lines[i]),
        !rest.contains('\n'),
        rest.len() > 0,
    ensures
        patch_files(ended_lines(lines)) == files_closed(patch_after(lines)),
        patch_files(ended_lines(lines) + rest) == files_closed(patch_after(lines.push(rest))),
{
    lines_are_read_back(lines, rest);
    lines_are_read_back(lines, seq![]);
    assert(ended_lines(lines) + Seq::<char>::empty() =~= ended_lines(lines));
}

/// A line that says something of a file, or nothing that is known, changes nothing.
pub proof fn notes_are_passed_over(p: PatchView, line: Seq<char>)
    requires
        opened_file(line) is None,
        !"@@"@.is_prefix_of(line),
        !is_body_line(line),
    ensures
        patch_with(p, line) == p,
{
}

// ── Display ───────────────────────────────────────────────────────────────────

/// A line is shown with its two numbers at the right of columns of four, its mark and its text; a
/// side on which it does not stand is left blank.
pub proof fn a_line_shows_its_numbers(l: DiffLineView) -> (columns: (Seq<char>, Seq<char>))
    ensures
        line_markup(l) == columns.0 + seq![' '] + columns.1 + seq![
            ' ',
            match l.kind {
                DiffLineKind::Context => ' ',
                DiffLineKind::Addition => '+',
                DiffLineKind::Deletion => '-',
            },
            ' ',
        ] + escaped(l.text),
        shows_number(columns.0, l.old),
        shows_number(columns.1, l.new),
{
    reveal_strlit(" ");
    reveal_strlit("+");
    reveal_strlit("-");
    let a = crate::diff::number_column(l.old);
    let b = crate::diff::number_column(l.new);
    column_shows(l.old);
    column_shows(l.new);
    assert(line_markup(l) =~= a + seq![' '] + b + seq![
        ' ',
        match l.kind {
            DiffLineKind::Context => ' ',
            DiffLineKind::Addition => '+',
            DiffLineKind::Deletion => '-',
        },
        ' ',
    ] + escaped(l.text));
    (a, b)
}

/// Whether a column holds a number at its right and blanks before it, in four places or as many
/// as the number needs.
pub open spec fn shows_number(column: Seq<char>, n: Option<usize>) -> bool {
    let digits: Seq<char> = match n {
        Some(k) => decimal(k as nat),
        None => seq![],
    };
    &&& column.len() == if digits.len() > 4 {
        digits.len()
    } else {
        4
    }
    &&& column.skip(column.len() - digits.len()) == digits
    &&& forall|i: int| 0 <= i < column.len() - digits.len() ==> column[i] == ' '
}

proof fn column_shows(n: Option<usize>)
    ensures
        shows_number(crate::diff::number_column(n), n),
{
    reveal_strlit("    ");
    let c = crate::diff::number_column(n);
    match n {
        Some(k) => {
            let d = decimal(k as nat);
            let spaces = padding_keeps_the_text(d, 4);
            assert(c == spaces + d);
            assert(c.skip(c.len() - d.len()) =~= d);
            assert forall|i: int| 0 <= i < c.len() - d.len() implies c[i] == ' ' by {
                assert(c[i] == spaces[i]);
            }
        },
        None => {
            assert(c.skip(4) =~= seq![]);
        },
    }
}

/// A line that came or went is set off by its own class, any other has none.
pub proof fn a_changed_line_is_set_off(kind: DiffLineKind)
    ensures
        line_class(kind) == (match kind {
            DiffLineKind::Context => None,
            DiffLineKind::Addition => Some("diff-line-addition"@),
            DiffLineKind::Deletion => Some("diff-line-deletion"@),
        }),
{
}

} // verus!
