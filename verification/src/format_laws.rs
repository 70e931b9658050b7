//! What the texts for display say, and what can be read back from them.
use vstd::arithmetic::div_mod::lemma_mul_mod_noop;
use vstd::prelude::*;
use crate::format::{author, delete_text, double_weight, duration_text, invocation, is_safe_word,
    is_shell_safe, middle_goes_up, quoted, revert_text, tenths, thought_summary, title_of, truncated};
use crate::json::{flag_field, text_field, FieldsView};
use crate::message::Role;
use crate::number::decimal;
use crate::search::{joined, replaced};
use crate::split::pieces;
use crate::text::{is_white, trimmed, trimmed_end};
use crate::text_laws::{blank, trimming_the_end_takes_white};
use crate::uri::pieces_of_joined_by;

verus! {

// ── Titles and lengths ────────────────────────────────────────────────────────

/// The title of a session is its first message without white space around it. A longer one is cut
/// after forty characters, without white space before the dots that say so.
pub proof fn a_title_is_the_beginning(text: Seq<char>) -> (cut: Seq<char>)
    ensures
        ({
            let t = trimmed(text);
            let title = title_of(text);
            if t.len() <= 40 {
                title == t
            } else {
                &&& title.len() > 0 && title.last() == '…'
                &&& t.take(40) == title.drop_last() + cut
                &&& blank(cut)
                &&& title.len() > 1 ==> !is_white(title[title.len() - 2])
            }
        }),
{
    reveal_strlit("…");
    let t = trimmed(text);
    let head = t.take(40);
    let cut = trimming_the_end_takes_white(head);
    if t.len() > 40 {
        assert(title_of(text).drop_last() =~= trimmed_end(head));
    }
    cut
}

/// An output that is cut is shown as far as the limit goes, and a note behind it says that it was
/// cut; a shorter one is shown as it is.
pub proof fn a_long_output_is_cut(s: Seq<char>, max: nat)
    ensures
        s.len() <= max ==> truncated(s, max) == s,
        s.len() > max ==> truncated(s, max).take(max as int) == s.take(max as int) && truncated(
            s,
            max,
        ).skip(max as int) == "\n… (salida truncada)"@,
{
    if s.len() > max {
        assert(truncated(s, max).take(max as int) =~= s.take(max as int));
        assert(truncated(s, max).skip(max as int) =~= "\n… (salida truncada)"@);
    }
}

// ── Durations ─────────────────────────────────────────────────────────────────

/// A duration below one second is shown to the millisecond, one below one minute to the nearest
/// tenth of a second, and a longer one in full minutes and seconds.
pub proof fn durations_are_exact(ms: nat) -> (parts: (nat, nat))
    ensures
        ms < 1_000 ==> duration_text(ms) == decimal(ms) + " ms"@,
        1_000 <= ms < 60_000 ==> duration_text(ms) == decimal(parts.0) + "."@ + decimal(parts.1)
            + " s"@ && parts.1 < 10 && -50 <= (10 * parts.0 + parts.1) * 100 - ms <= 50,
        ms >= 60_000 ==> duration_text(ms) == decimal(parts.0) + "m "@ + decimal(parts.1) + "s"@
            && parts.1 < 60 && parts.0 * 60_000 + parts.1 * 1_000 <= ms < parts.0 * 60_000
            + parts.1 * 1_000 + 1_000,
        thought_summary(0) == "Pensamiento"@,
        ms > 0 ==> thought_summary(ms) == "Pensamiento · "@ + duration_text(ms),
{
    if ms < 60_000 {
        let t = tenths(ms);
        assert(10 * (t / 10) + t % 10 == t);
        (t / 10, t % 10)
    } else {
        (ms / 60_000, (ms % 60_000) / 1_000)
    }
}

/// How many steps a second has for a number of as many seconds that is kept in binary, with
/// fifty-three digits.
pub open spec fn binary_steps(ms: nat) -> int {
    if ms < 2_000 {
        0x10_0000_0000_0000
    } else if ms < 4_000 {
        0x8_0000_0000_0000
    } else if ms < 8_000 {
        0x4_0000_0000_0000
    } else if ms < 16_000 {
        0x2_0000_0000_0000
    } else if ms < 32_000 {
        0x1_0000_0000_0000
    } else {
        0x8000_0000_0000
    }
}

/// Halfway between two tenths a duration goes the way that the number of its seconds goes when it
/// is kept in binary: up where what is kept, `near` steps, is more, down where it is less, and to
/// the even tenth where it is the number itself.
pub proof fn the_middle_goes_where_the_number_goes(ms: nat, near: int) -> (parts: (nat, nat))
    requires
        1_000 <= ms < 60_000,
        ms % 100 == 50,
        -500 <= near * 1_000 - ms * binary_steps(ms) <= 500,
    ensures
        duration_text(ms) == decimal(parts.0) + "."@ + decimal(parts.1) + " s"@,
        parts.1 < 10,
        near * 1_000 > ms * binary_steps(ms) ==> 10 * parts.0 + parts.1 == ms / 100 + 1,
        near * 1_000 < ms * binary_steps(ms) ==> 10 * parts.0 + parts.1 == ms / 100,
        near * 1_000 == ms * binary_steps(ms) ==> 10 * parts.0 + parts.1 == ms / 100 + (ms / 100)
            % 2,
{
    let t = tenths(ms);
    assert(10 * (t / 10) + t % 10 == t);
    what_is_left_over(ms);
    nearest_multiple(ms * binary_steps(ms), near);
    (t / 10, t % 10)
}

proof fn what_is_left_over(ms: nat)
    requires
        1_000 <= ms < 60_000,
        ms % 100 == 50,
    ensures
        (ms * binary_steps(ms)) % 1_000 != 500,
        (ms * binary_steps(ms)) % 1_000 > 500 ==> middle_goes_up(ms),
        0 < (ms * binary_steps(ms)) % 1_000 < 500 ==> !middle_goes_up(ms),
        (ms * binary_steps(ms)) % 1_000 == 0 ==> middle_goes_up(ms) == ((ms / 100) % 2 == 1),
{
    let w = double_weight(ms);
    let k = (ms % 1_000) / 100;
    assert(ms % 1_000 == 100 * k + 50);
    hundreds_of_fifties(k as int, w as int);
    assert(binary_steps(ms) % 1_000 == w);
    lemma_mul_mod_noop(ms as int, binary_steps(ms), 1_000);
    assert((ms as int % 1_000) * (binary_steps(ms) % 1_000) == (ms % 1_000) * w);
}

proof fn hundreds_of_fifties(k: int, w: int)
    requires
        0 <= k < 10,
        w == 496 || w == 248 || w == 624 || w == 312 || w == 656 || w == 328,
    ensures
        (((100 * k + 50) * w) % 1_000) % 200 == 0,
{
    assert(((100 * k + 50) * w) % 200 == 0) by {
        assert((100 * k + 50) * w == 200 * ((2 * k + 1) * (w / 4))) by (nonlinear_arith)
            requires
                w % 4 == 0,
        ;
    }
}

proof fn nearest_multiple(x: int, near: int)
    requires
        -500 <= near * 1_000 - x <= 500,
        x % 1_000 != 500,
    ensures
        near * 1_000 > x <==> x % 1_000 > 500,
        near * 1_000 == x <==> x % 1_000 == 0,
{
}

// ── Calls ─────────────────────────────────────────────────────────────────────

/// What a shell makes of a word: single quotes keep all that stands between them, a backslash
/// outside of them keeps the character behind it.
pub open spec fn shell_reads(s: Seq<char>, inside: bool) -> Seq<char>
    decreases s.len(),
{
    if s.len() == 0 {
        seq![]
    } else if s[0] == '\'' {
        shell_reads(s.drop_first(), !inside)
    } else if s[0] == '\\' && !inside && s.len() > 1 {
        seq![s[1]] + shell_reads(s.skip(2), false)
    } else {
        seq![s[0]] + shell_reads(s.drop_first(), inside)
    }
}

proof fn shell_reads_safe(s: Seq<char>)
    requires
        forall|i: int| 0 <= i < s.len() ==> is_shell_safe(#[trigger] s[i]),
    ensures
        shell_reads(s, false) == s,
    decreases s.len(),
{
    if s.len() > 0 {
        let t = s.drop_first();
        assert(is_shell_safe(s[0]));
        assert forall|i: int| 0 <= i < t.len() implies is_shell_safe(#[trigger] t[i]) by {
            assert(t[i] == s[i + 1]);
        }
        shell_reads_safe(t);
        assert(s =~= seq![s[0]] + t);
    } else {
        assert(shell_reads(s, false) =~= s);
    }
}

proof fn shell_reads_quoted(s: Seq<char>)
    ensures
        shell_reads(replaced(s, "'"@, "'\\''"@) + "'"@, true) == s,
    decreases s.len(),
{
    reveal_strlit("'");
    reveal_strlit("'\\''");
    let p = "'"@;
    let new = "'\\''"@;
    if s.len() == 0 {
        assert(replaced(s, p, new) =~= seq![]);
        let x = replaced(s, p, new) + "'"@;
        assert(x =~= seq!['\'']);
        assert(x.drop_first() =~= seq![]);
        assert(shell_reads(x.drop_first(), false) =~= seq![]);
        assert(s =~= seq![]);
    } else {
        let rest = s.drop_first();
        shell_reads_quoted(rest);
        let tail = replaced(rest, p, new) + "'"@;
        let x = replaced(s, p, new) + "'"@;
        assert(s =~= seq![s[0]] + rest);
        if s[0] == '\'' {
            assert(p.is_prefix_of(s)) by {
                assert(s.subrange(0, 1) =~= p);
            }
            assert(s.skip(1) =~= rest);
            assert(x =~= new + tail);
            let a = x.drop_first();
            assert(x[0] == '\'');
            assert(a[0] == '\\');
            assert(a[1] == '\'');
            let b = a.skip(2);
            assert(b[0] == '\'');
            assert(b.drop_first() =~= tail);
            assert(shell_reads(b, false) == shell_reads(tail, true));
            assert(shell_reads(a, false) == seq!['\''] + shell_reads(b, false));
            assert(shell_reads(x, true) == shell_reads(a, false));
        } else {
            assert(!p.is_prefix_of(s)) by {
                assert(p[0] == '\'');
            }
            assert(x =~= seq![s[0]] + tail);
            assert(x.drop_first() =~= tail);
        }
    }
}

/// A shell reads a quoted word as the text that was quoted; a text of harmless characters stands
/// without quotes.
pub proof fn a_shell_reads_the_word_back(s: Seq<char>)
    ensures
        shell_reads(quoted(s), false) == s,
        is_safe_word(s) ==> quoted(s) == s,
{
    reveal_strlit("'");
    if is_safe_word(s) {
        shell_reads_safe(s);
    } else {
        shell_reads_quoted(s);
        let inner = replaced(s, "'"@, "'\\''"@) + "'"@;
        assert(quoted(s) =~= seq!['\''] + inner);
        assert(quoted(s).drop_first() =~= inner);
    }
}

/// A command is shown behind a dollar sign as it is; a tool that works on a path or a pattern is
/// shown with its name and that argument as a word of a shell. A call whose arguments cannot be
/// read, or of another tool, is shown with its arguments as they came.
pub proof fn a_call_shows_its_argument(
    name: Seq<char>,
    raw: Seq<char>,
    f: FieldsView,
    value: Seq<char>,
)
    ensures
        invocation(name, raw, None) == name + " "@ + raw,
        text_field(f, "command"@) == Some(value) ==> invocation("bash"@, raw, Some(f)) == "$ "@
            + value,
        text_field(f, "path"@) == Some(value) ==> {
            &&& invocation("read_file"@, raw, Some(f)) == "read_file "@ + quoted(value)
            &&& invocation("write_file"@, raw, Some(f)) == "write_file "@ + quoted(value)
            &&& invocation("list_dir"@, raw, Some(f)) == "list_dir "@ + quoted(value)
            &&& invocation("edit_file"@, raw, Some(f)) == "edit_file "@ + quoted(value)
                + if flag_field(f, "replace_all"@) == Some(true) {
                " --replace-all"@
            } else {
                Seq::empty()
            }
        },
        text_field(f, "pattern"@) == Some(value) ==> {
            &&& invocation("glob"@, raw, Some(f)) == "glob "@ + quoted(value)
            &&& text_field(f, "path"@) is None ==> invocation("grep"@, raw, Some(f)) == "grep "@
                + quoted(value)
        },
{
    names_differ();
    let line = "edit_file "@ + quoted(value);
    assert(line + Seq::<char>::empty() =~= line);
}

/// The names of the tools differ from one another.
pub proof fn names_differ()
    ensures
        "bash"@ != "read_file"@,
        "bash"@ != "write_file"@,
        "bash"@ != "edit_file"@,
        "bash"@ != "list_dir"@,
        "bash"@ != "glob"@,
        "bash"@ != "grep"@,
        "read_file"@ != "write_file"@,
        "read_file"@ != "edit_file"@,
        "read_file"@ != "list_dir"@,
        "read_file"@ != "glob"@,
        "read_file"@ != "grep"@,
        "write_file"@ != "edit_file"@,
        "write_file"@ != "list_dir"@,
        "write_file"@ != "glob"@,
        "write_file"@ != "grep"@,
        "edit_file"@ != "list_dir"@,
        "edit_file"@ != "glob"@,
        "edit_file"@ != "grep"@,
        "list_dir"@ != "glob"@,
        "list_dir"@ != "grep"@,
        "glob"@ != "grep"@,
{
    reveal_strlit("bash");
    reveal_strlit("read_file");
    reveal_strlit("write_file");
    reveal_strlit("edit_file");
    reveal_strlit("list_dir");
    reveal_strlit("glob");
    reveal_strlit("grep");
    assert("bash"@[0] == 'b');
    assert("read_file"@[0] == 'r');
    assert("write_file"@[0] == 'w');
    assert("edit_file"@[0] == 'e');
    assert("list_dir"@[0] == 'l');
    assert("glob"@[0] == 'g');
    assert("glob"@[1] == 'l');
    assert("grep"@[0] == 'g');
    assert("grep"@[1] == 'r');
}

// ── Dialogs ───────────────────────────────────────────────────────────────────

/// The dialog before going back names the files, each in a line with a bullet: all of them up to
/// twenty, else the first twenty and how many more there are.
pub proof fn the_files_to_go_back_are_named(files: Seq<Seq<char>>)
    requires
        files.len() > 0,
        forall|i: int| 0 <= i < files.len() ==> !(#[trigger] files[i]).contains('\n'),
    ensures
        ({
            let head = "Se sobrescribirán los siguientes archivos:\n\n"@;
            let n: int = if files.len() <= 20 {
                files.len() as int
            } else {
                20
            };
            let list = pieces(revert_text(files).skip(head.len() as int), '\n');
            &&& head.is_prefix_of(revert_text(files))
            &&& list.len() == if files.len() <= 20 {
                n
            } else {
                n + 1
            }
            &&& forall|i: int| 0 <= i < n ==> #[trigger] list[i] == "• "@ + files[i]
            &&& files.len() > 20 ==> list[20] == "… y "@ + decimal((files.len() - 20) as nat)
                + " más"@
        }),
{
    reveal_strlit("\n");
    reveal_strlit("• ");
    reveal_strlit("\n… y ");
    reveal_strlit("… y ");
    reveal_strlit(" más");
    let head = "Se sobrescribirán los siguientes archivos:\n\n"@;
    let n: int = if files.len() <= 20 {
        files.len() as int
    } else {
        20
    };
    assert("\n"@ =~= seq!['\n']);
    let shown = files.take(n);
    let lines = crate::format::revert_lines(shown);
    let text = revert_text(files);
    assert forall|i: int| 0 <= i < lines.len() implies !(#[trigger] lines[i]).contains('\n') by {
        let l = lines[i];
        assert(l == "• "@ + files[i]);
        assert(!files[i].contains('\n'));
        assert forall|k: int| 0 <= k < l.len() implies l[k] != '\n' by {
            if k >= 2 {
                assert(l[k] == files[i][k - 2]);
                assert(files[i].contains(files[i][k - 2]));
            }
        }
    }
    if files.len() <= 20 {
        assert(shown =~= files);
        assert(text == head + joined(lines, "\n"@));
        assert(text.skip(head.len() as int) =~= joined(lines, "\n"@));
        pieces_of_joined_by(lines, '\n');
    } else {
        let d = decimal((files.len() - 20) as nat);
        let last = "… y "@ + d + " más"@;
        let all = lines.push(last);
        crate::number::decimal_digits((files.len() - 20) as nat);
        assert forall|k: int| 0 <= k < last.len() implies last[k] != '\n' by {
            if 4 <= k < 4 + d.len() {
                assert(last[k] == d[k - 4]);
            }
        }
        assert(!last.contains('\n'));
        assert forall|i: int| 0 <= i < all.len() implies !(#[trigger] all[i]).contains('\n') by {
            if i < lines.len() {
                assert(all[i] == lines[i]);
            }
        }
        pieces_of_joined_by(all, '\n');
        assert(all.drop_last() =~= lines);
        let j = joined(lines, "\n"@);
        assert(joined(all, "\n"@) == j + "\n"@ + last);
        assert("\n… y "@ =~= "\n"@ + "… y "@);
        assert(text =~= head + (j + "\n"@ + last));
        assert(text.skip(head.len() as int) =~= j + "\n"@ + last);
    }
    assert(head.is_prefix_of(text)) by {
        assert(text.subrange(0, head.len() as int) =~= head);
    }
}

/// Only letters, digits and nine signs are harmless to a shell.
pub proof fn harmless_characters(c: char)
    ensures
        is_shell_safe(c) <==> ('a' <= c <= 'z' || 'A' <= c <= 'Z' || '0' <= c <= '9' || seq![
            '-',
            '_',
            '.',
            '/',
            ':',
            '@',
            '%',
            '+',
            ',',
        ].contains(c)),
{
    let signs = seq!['-', '_', '.', '/', ':', '@', '%', '+', ','];
    assert(signs[0] == '-' && signs[1] == '_' && signs[2] == '.');
    assert(signs[3] == '/' && signs[4] == ':' && signs[5] == '@');
    assert(signs[6] == '%' && signs[7] == '+' && signs[8] == ',');
}

/// A search in texts is shown with what it looks for and, where it does not look everywhere, with
/// where it looks.
pub proof fn a_search_shows_where_it_looks(
    f: FieldsView,
    raw: Seq<char>,
    pattern: Seq<char>,
    path: Seq<char>,
)
    requires
        text_field(f, "pattern"@) == Some(pattern),
    ensures
        text_field(f, "path"@) == Some(path) && path.len() > 0 ==> invocation(
            "grep"@,
            raw,
            Some(f),
        ) == "grep "@ + quoted(pattern) + " "@ + quoted(path),
        text_field(f, "path"@) is None ==> invocation("grep"@, raw, Some(f)) == "grep "@ + quoted(
            pattern,
        ),
{
    names_differ();
}

/// A message is shown under the name of who said it, and no two have the same name.
pub proof fn everyone_has_a_name(a: Role, b: Role)
    ensures
        author(Role::User) == "Tú"@,
        author(Role::Assistant) == "xiě-code"@,
        author(Role::System) == "Sistema"@,
        author(Role::Tool) == "Tool"@,
        author(a) == author(b) ==> a == b,
{
    reveal_strlit("Tú");
    reveal_strlit("xiě-code");
    reveal_strlit("Sistema");
    reveal_strlit("Tool");
    assert("Tú"@.len() == 2 && "xiě-code"@.len() == 8);
    assert("Sistema"@.len() == 7 && "Tool"@.len() == 4);
}

/// The question before a session is deleted names its title as it is.
pub proof fn the_session_to_delete_is_named(title: Seq<char>)
    ensures
        "¿Eliminar la sesión «"@.is_prefix_of(delete_text(title)),
        title.is_prefix_of(delete_text(title).skip("¿Eliminar la sesión «"@.len() as int)),
        delete_text(title).skip("¿Eliminar la sesión «"@.len() as int).skip(title.len() as int)
            == "»?\n\nSe borrarán también todos sus mensajes."@,
{
    let a = "¿Eliminar la sesión «"@;
    let c = "»?\n\nSe borrarán también todos sus mensajes."@;
    assert(delete_text(title).skip(a.len() as int) =~= title + c);
    assert((title + c).skip(title.len() as int) =~= c);
}

} // verus!
