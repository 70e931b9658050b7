//! What the tools make of what was done outside.
use vstd::prelude::*;
use vstd::utf8::encode_utf8;
use crate::context::{confined, ToolContext};
use crate::number::{decimal, i32_text, signed_decimal, usize_text};
use crate::order::{sort_texts, sorted_texts};
use crate::path::{comp_views, components, comps, Comp, CompView};
use crate::relative::relative_to;
use crate::search::{count_matches, join, joined, occurrences, occurrences_zero, occurs_in,
    replace_all, replace_first, replaced, replaced_first, replaced_once};
use crate::split::{lines, lines_of};
use crate::stream::{lossy, lossy_text};
use crate::text::{chars_of, concat2, opt_str, owned, str_eq, trim_end, trimmed_end, views};
use crate::tool::{Error, ErrorView};
use crate::toolrun::{find_in_lines, pattern_error, regex_error, regex_finds};

verus! {

// ── write_file ────────────────────────────────────────────────────────────────

/// What `write_file` reports: the file and how many bytes it has.
pub open spec fn written(rel: Seq<char>, content: Seq<char>) -> Seq<char> {
    "Escrito "@ + rel + " ("@ + decimal(encode_utf8(content).len()) + " bytes)."@
}

/// What `write_file` reports of the file at `path`.
pub fn write_summary(ctx: &ToolContext, path: &str, content: &str) -> (r: String)
    ensures
        r@ == written(relative_to(path@, ctx@), content@),
{
    let mut out = owned("Escrito ");
    out.push_str(ctx.relativize(path).as_str());
    out.push_str(" (");
    out.push_str(usize_text(content.as_bytes().len()).as_str());
    out.push_str(" bytes).");
    out
}

// ── edit_file ─────────────────────────────────────────────────────────────────

/// What `edit_file` makes of a file: the new text and how many times it replaced. The text to be
/// replaced has to occur, and once only unless all occurrences are meant.
pub open spec fn edited(original: Seq<char>, old: Seq<char>, new: Seq<char>, all: bool) -> Result<
    (Seq<char>, nat),
    ErrorView,
> {
    let n = occurrences(original, old);
    if n == 0 {
        Err(ErrorView::Edit("`old_string` no aparece en el archivo"@))
    } else if all {
        Ok((replaced(original, old, new), n))
    } else if n == 1 {
        Ok((replaced_first(original, old, new), 1))
    } else {
        Err(
            ErrorView::Edit(
                "`old_string` aparece "@ + decimal(n)
                    + " veces; sé más específico o usa replace_all"@,
            ),
        )
    }
}

/// The view of what `edit_file` makes of a file.
pub open spec fn edit_result(r: Result<(String, usize), Error>) -> Result<
    (Seq<char>, nat),
    ErrorView,
> {
    match r {
        Ok((s, n)) => Ok((s@, n as nat)),
        Err(e) => Err(e@),
    }
}

/// What `edit_file` makes of a file.
pub fn apply_edit(original: &str, old: &str, new: &str, all: bool) -> (r: Result<
    (String, usize),
    Error,
>)
    requires
        original@.len() < usize::MAX,
    ensures
        edit_result(r) == edited(original@, old@, new@, all),
{
    let n = count_matches(original, old);
    if n == 0 {
        return Err(Error::Edit(owned("`old_string` no aparece en el archivo")));
    }
    if all {
        return Ok((replace_all(original, old, new), n));
    }
    if n == 1 {
        return Ok((replace_first(original, old, new), 1));
    }
    let mut text = owned("`old_string` aparece ");
    text.push_str(usize_text(n).as_str());
    text.push_str(" veces; sé más específico o usa replace_all");
    Err(Error::Edit(text))
}

/// What `edit_file` reports.
pub open spec fn edit_report(rel: Seq<char>, n: nat) -> Seq<char> {
    "Editado "@ + rel + " ("@ + decimal(n) + " reemplazo(s))."@
}

/// What `edit_file` reports of the file at `path`.
pub fn edit_summary(ctx: &ToolContext, path: &str, n: usize) -> (r: String)
    ensures
        r@ == edit_report(relative_to(path@, ctx@), n as nat),
{
    let mut out = owned("Editado ");
    out.push_str(ctx.relativize(path).as_str());
    out.push_str(" (");
    out.push_str(usize_text(n).as_str());
    out.push_str(" reemplazo(s)).");
    out
}

/// An edit fails where the text does not occur, and where it occurs more than once without being
/// meant everywhere; it succeeds in every other case, and then replaced all that it reports.
pub proof fn edit_is_unambiguous(
    original: Seq<char>,
    old: Seq<char>,
    new: Seq<char>,
    all: bool,
)
    ensures
        edited(original, old, new, all) is Ok <==> occurs_in(original, old) && (all
            || occurrences(original, old) == 1),
        edited(original, old, new, all) matches Ok((text, n)) ==> n == occurrences(original, old)
            && (old.len() > 0 ==> text == replaced(original, old, new)),
{
    occurrences_zero(original, old);
    if old.len() > 0 && occurrences(original, old) == 1 {
        replaced_once(original, old, new);
    }
}

// ── list_dir ──────────────────────────────────────────────────────────────────

/// A directory entry in a list: a slash marks a directory.
pub open spec fn listed(name: Seq<char>, is_dir: bool) -> Seq<char> {
    if is_dir {
        name + "/"@
    } else {
        name
    }
}

/// The entries of a directory in a list.
pub open spec fn listed_all(entries: Seq<(String, bool)>) -> Seq<Seq<char>> {
    entries.map_values(|e: (String, bool)| listed(e.0@, e.1))
}

/// Texts on a line each; `otherwise` where there are none.
pub open spec fn one_per_line(texts: Seq<Seq<char>>, otherwise: Seq<char>) -> Seq<char> {
    if texts.len() == 0 {
        otherwise
    } else {
        joined(texts, "\n"@)
    }
}

/// What `list_dir` answers: the entries in order, one on each line.
pub open spec fn dir_answer(entries: Seq<(String, bool)>) -> Seq<char> {
    one_per_line(sorted_texts(listed_all(entries)), "(directorio vacío)"@)
}

/// What `list_dir` answers.
pub fn list_dir_output(entries: &Vec<(String, bool)>) -> (r: String)
    ensures
        r@ == dir_answer(entries@),
{
    let mut out: Vec<String> = Vec::new();
    let ghost want = listed_all(entries@);
    let mut i: usize = 0;
    while i < entries.len()
        invariant
            i <= entries.len(),
            out@.len() == i,
            want == listed_all(entries@),
            forall|j: int| 0 <= j < i ==> (#[trigger] out@[j])@ == want[j],
        decreases entries.len() - i,
    {
        let e = &entries[i];
        let text = if e.1 {
            concat2(e.0.as_str(), "/")
        } else {
            e.0.clone()
        };
        assert(text@ == want[i as int]);
        out.push(text);
        i = i + 1;
    }
    assert(views(out@) =~= want);
    let sorted = sort_texts(out);
    assert(sorted@.len() == sorted_texts(want).len());
    if sorted.len() == 0 {
        owned("(directorio vacío)")
    } else {
        join(&sorted, "\n")
    }
}

// ── glob ──────────────────────────────────────────────────────────────────────

/// Whether searches pass over directories of this name.
pub open spec fn is_skipped(name: Seq<char>) -> bool {
    name == ".git"@ || name == "target"@ || name == "node_modules"@ || name == ".venv"@
}

/// Whether searches pass over directories of this name.
pub fn is_skipped_dir(name: &str) -> (r: bool)
    ensures
        r == is_skipped(name@),
{
    str_eq(name, ".git") || str_eq(name, "target") || str_eq(name, "node_modules") || str_eq(
        name,
        ".venv",
    )
}

/// Whether a path goes through a directory that searches pass over.
pub open spec fn goes_through_skipped(path: Seq<char>) -> bool {
    exists|i: int|
        0 <= i < comps(path).len() && (#[trigger] comps(path)[i] matches CompView::Normal(name)
            && is_skipped(name))
}

/// Whether a path that matches is reported: it lies inside the worktree and goes through no
/// directory that is passed over.
pub open spec fn is_reported(workdir: Seq<char>, path: Seq<char>) -> bool {
    confined(workdir, path) is Ok && !goes_through_skipped(path)
}

/// The paths that are reported, as they are seen from the worktree.
pub open spec fn reported(workdir: Seq<char>, paths: Seq<Seq<char>>) -> Seq<Seq<char>>
    decreases paths.len(),
{
    if paths.len() == 0 {
        seq![]
    } else {
        let before = reported(workdir, paths.drop_last());
        if is_reported(workdir, paths.last()) {
            before.push(relative_to(paths.last(), workdir))
        } else {
            before
        }
    }
}

/// Whether a path goes through a directory that searches pass over.
fn through_skipped(path: &str) -> (r: bool)
    ensures
        r == goes_through_skipped(path@),
{
    let parts = components(path);
    let ghost all = comps(path@);
    let mut i: usize = 0;
    while i < parts.len()
        invariant
            i <= parts.len(),
            comp_views(parts@) == all,
            all == comps(path@),
            forall|j: int|
                0 <= j < i ==> !(#[trigger] all[j] matches CompView::Normal(name) && is_skipped(
                    name,
                )),
        decreases parts.len() - i,
    {
        assert(all[i as int] == parts@[i as int]@);
        if let Comp::Normal(name) = &parts[i] {
            if is_skipped_dir(name.as_str()) {
                return true;
            }
        }
        i = i + 1;
    }
    false
}

/// What `glob` answers, of the paths that match: those that are reported, in order, one on each
/// line.
pub open spec fn glob_answer(workdir: Seq<char>, paths: Seq<Seq<char>>) -> Seq<char> {
    one_per_line(sorted_texts(reported(workdir, paths)), "(sin coincidencias)"@)
}

/// What `glob` answers, of the paths that match.
pub fn glob_output(ctx: &ToolContext, paths: &Vec<String>) -> (r: String)
    ensures
        r@ == glob_answer(ctx@, views(paths@)),
{
    let ghost all = views(paths@);
    let mut out: Vec<String> = Vec::new();
    let mut i: usize = 0;
    assert(all.take(0) =~= seq![]);
    assert(views(out@) =~= reported(ctx@, all.take(0)));
    while i < paths.len()
        invariant
            i <= paths.len(),
            all == views(paths@),
            views(out@) == reported(ctx@, all.take(i as int)),
        decreases paths.len() - i,
    {
        let path = paths[i].as_str();
        assert(all[i as int] == path@);
        assert(all.take(i + 1).drop_last() =~= all.take(i as int));
        assert(all.take(i + 1).last() == path@);
        let ghost before = out@;
        if ctx.resolve(path).is_ok() && !through_skipped(path) {
            let rel = ctx.relativize(path);
            out.push(rel);
            assert(views(out@) =~= views(before).push(rel@));
        }
        i = i + 1;
    }
    assert(all.take(i as int) =~= all);
    let sorted = sort_texts(out);
    assert(sorted@.len() == sorted_texts(reported(ctx@, all)).len());
    if sorted.len() == 0 {
        owned("(sin coincidencias)")
    } else {
        join(&sorted, "\n")
    }
}

// ── grep ──────────────────────────────────────────────────────────────────────

/// How many matches `grep` reports at most.
pub const GREP_MAX_MATCHES: usize = 200;

/// The line that `grep` ends with where it stopped early.
pub open spec fn cut_note() -> Seq<char> {
    "… (truncado en "@ + decimal(GREP_MAX_MATCHES as nat) + " coincidencias)"@
}

/// A match: the file, the number of the line and the line.
pub open spec fn match_line(rel: Seq<char>, number: nat, line: Seq<char>) -> Seq<char> {
    rel + ":"@ + decimal(number) + ":"@ + trimmed_end(line)
}

/// The matches in a file, where `hits` says of each line whether it matches.
pub open spec fn matches_in(rel: Seq<char>, lines: Seq<Seq<char>>, hits: Seq<bool>) -> Seq<
    Seq<char>,
>
    decreases lines.len(),
{
    if lines.len() == 0 {
        seq![]
    } else {
        let before = matches_in(rel, lines.drop_last(), hits);
        let i = lines.len() - 1;
        if i < hits.len() && hits[i] {
            before.push(match_line(rel, lines.len(), lines.last()))
        } else {
            before
        }
    }
}

/// What a search found so far.
#[verifier::ext_equal]
pub struct GrepView {
    pub pattern: Seq<char>,
    pub found: Seq<Seq<char>>,
    /// Whether the search stopped early.
    pub full: bool,
}

/// What a search found, with the matches of one more file. Once there are as many as are
/// reported, the search stops.
pub open spec fn grep_with(g: GrepView, more: Seq<Seq<char>>) -> GrepView {
    if g.full {
        g
    } else if (g.found + more).len() >= GREP_MAX_MATCHES {
        GrepView {
            found: (g.found + more).take(GREP_MAX_MATCHES as int).push(cut_note()),
            full: true,
            ..g
        }
    } else {
        GrepView { found: g.found + more, ..g }
    }
}

/// What a search found, with the matches in the file `rel`.
pub open spec fn scanned(g: GrepView, rel: Seq<char>, content: Seq<char>) -> GrepView {
    grep_with(
        g,
        matches_in(
            rel,
            lines_of(content),
            lines_of(content).map_values(|l: Seq<char>| regex_finds(g.pattern, l)),
        ),
    )
}

/// What `grep` answers: the matches, one on each line.
pub open spec fn grep_answer(g: GrepView) -> Seq<char> {
    one_per_line(g.found, "(sin coincidencias)"@)
}

/// A search through files.
#[derive(Debug)]
pub struct GrepSearch {
    pattern: String,
    found: Vec<String>,
    full: bool,
}

impl View for GrepSearch {
    type V = GrepView;

    closed spec fn view(&self) -> GrepView {
        GrepView { pattern: self.pattern@, found: views(self.found@), full: self.full }
    }
}

proof fn matches_grow(rel: Seq<char>, lines: Seq<Seq<char>>, hits: Seq<bool>, i: int)
    requires
        0 <= i <= lines.len(),
    ensures
        matches_in(rel, lines.take(i), hits).is_prefix_of(matches_in(rel, lines, hits)),
    decreases lines.len() - i,
{
    let now = matches_in(rel, lines.take(i), hits);
    let all = matches_in(rel, lines, hits);
    if i == lines.len() {
        assert(lines.take(i) =~= lines);
        assert(all.subrange(0, now.len() as int) =~= now);
    } else {
        matches_grow(rel, lines, hits, i + 1);
        let next = matches_in(rel, lines.take(i + 1), hits);
        assert(lines.take(i + 1).drop_last() =~= lines.take(i));
        assert(next.subrange(0, now.len() as int) =~= now);
        assert(all.subrange(0, next.len() as int) =~= next);
        assert(all.subrange(0, now.len() as int) =~= next.subrange(0, now.len() as int));
    }
}

impl GrepSearch {
    /// The pattern is a regular expression, and a search that goes on has room for a match.
    #[verifier::type_invariant]
    spec fn valid(self) -> bool {
        regex_error(self.pattern@) is None && (!self.full ==> self.found@.len()
            < GREP_MAX_MATCHES)
    }

    /// A search for `pattern`, unless that is no regular expression.
    pub fn new(pattern: &str) -> (r: Result<Self, Error>)
        ensures
            r is Ok <==> regex_error(pattern@) is None,
            r matches Ok(g) ==> g@ == (GrepView { pattern: pattern@, found: seq![], full: false }),
            r matches Err(e) ==> e@ == ErrorView::Regex(regex_error(pattern@)->0),
    {
        if let Some(e) = pattern_error(pattern) {
            return Err(Error::Regex(e));
        }
        let g = GrepSearch { pattern: owned(pattern), found: Vec::new(), full: false };
        assert(g@.found =~= seq![]);
        Ok(g)
    }

    /// Whether the search stopped early.
    pub fn is_full(&self) -> (r: bool)
        ensures
            r == self@.full,
    {
        self.full
    }

    /// Takes in the lines of the file `rel`, of which `hits` says which match.
    pub fn scan_with(&mut self, rel: &str, lines: &Vec<String>, hits: &Vec<bool>)
        ensures
            final(self)@ == grep_with(old(self)@, matches_in(rel@, views(lines@), hits@)),
    {
        proof {
            use_type_invariant(&*self);
        }
        if self.full {
            return;
        }
        let ghost g = self@;
        let ghost all = views(lines@);
        let ghost more = matches_in(rel@, all, hits@);
        let mut found: Vec<String> = Vec::new();
        std::mem::swap(&mut found, &mut self.found);
        let mut i: usize = 0;
        assert(all.take(0) =~= seq![]);
        assert(views(found@) =~= g.found + matches_in(rel@, all.take(0), hits@));
        while i < lines.len()
            invariant
                i <= lines.len(),
                all == views(lines@),
                more == matches_in(rel@, all, hits@),
                views(found@) == g.found + matches_in(rel@, all.take(i as int), hits@),
                found@.len() < GREP_MAX_MATCHES,
                g == old(self)@,
                !g.full,
                self@.pattern == g.pattern,
                !self.full,
                regex_error(self.pattern@) is None,
                self.found@.len() == 0,
            decreases lines.len() - i,
        {
            assert(all[i as int] == lines@[i as int]@);
            assert(all.take(i + 1).drop_last() =~= all.take(i as int));
            assert(all.take(i + 1).last() == lines@[i as int]@);
            let ghost before = found@;
            if i < hits.len() && hits[i] {
                let mut text = owned(rel);
                text.push_str(":");
                text.push_str(usize_text(i + 1).as_str());
                text.push_str(":");
                text.push_str(trim_end(lines[i].as_str()).as_str());
                found.push(text);
                assert(views(found@) =~= views(before).push(text@));
                assert(views(found@) =~= g.found + matches_in(rel@, all.take(i + 1), hits@));
                if found.len() >= GREP_MAX_MATCHES {
                    proof {
                        matches_grow(rel@, all, hits@, i + 1);
                        let now = matches_in(rel@, all.take(i + 1), hits@);
                        assert(more.subrange(0, now.len() as int) =~= now);
                        assert((g.found + more).take(GREP_MAX_MATCHES as int) =~= g.found + now);
                    }
                    let ghost full = found@;
                    let mut note = owned("… (truncado en ");
                    note.push_str(usize_text(GREP_MAX_MATCHES).as_str());
                    note.push_str(" coincidencias)");
                    found.push(note);
                    assert(views(found@) =~= views(full).push(note@));
                    self.full = true;
                    self.found = found;
                    return;
                }
            }
            i = i + 1;
        }
        assert(all.take(i as int) =~= all);
        self.found = found;
    }

    /// Takes in the file `rel`.
    pub fn scan(&mut self, rel: &str, content: &str)
        ensures
            final(self)@ == scanned(old(self)@, rel@, content@),
    {
        proof {
            use_type_invariant(&*self);
        }
        let all = lines(content);
        let hits = find_in_lines(self.pattern.as_str(), &all);
        self.scan_with(rel, &all, &hits);
    }

    /// What `grep` answers.
    pub fn finish(&self) -> (r: String)
        ensures
            r@ == grep_answer(self@),
    {
        if self.found.len() == 0 {
            owned("(sin coincidencias)")
        } else {
            join(&self.found, "\n")
        }
    }
}

/// A search never reports more matches than the most, and a note where it stopped early.
pub proof fn grep_is_bounded(g: GrepView, more: Seq<Seq<char>>)
    requires
        g.found.len() <= GREP_MAX_MATCHES + 1,
        !g.full ==> g.found.len() < GREP_MAX_MATCHES,
    ensures
        grep_with(g, more).found.len() <= GREP_MAX_MATCHES + 1,
        !grep_with(g, more).full ==> grep_with(g, more).found.len() < GREP_MAX_MATCHES,
        grep_with(grep_with(g, more), more).full || !grep_with(g, more).full,
{
}

// ── bash ──────────────────────────────────────────────────────────────────────

/// How many seconds a command may run.
pub const BASH_TIMEOUT_SECS: u64 = 120;

/// The two outputs of a command, one behind the other, each on lines of its own.
pub open spec fn both_outputs(out: Seq<char>, err: Option<Seq<char>>) -> Seq<char> {
    match err {
        None => out,
        Some(e) => if out.len() > 0 && out.last() != '\n' {
            out.push('\n') + e
        } else {
            out + e
        },
    }
}

/// What `bash` answers: what the command wrote, and its exit code.
pub open spec fn bash_answer(out: Seq<char>, err: Option<Seq<char>>, code: Option<i32>) -> Seq<
    char,
> {
    let text = both_outputs(out, err);
    (if text.len() == 0 {
        "(sin salida)"@
    } else {
        text
    }) + "\n[código de salida: "@ + (match code {
        Some(c) => signed_decimal(c as int),
        None => "señal"@,
    }) + "]"@
}

/// What `bash` answers. `err` is what the command wrote to its second output, where it wrote
/// anything there; `code` is `None` for a command that a signal ended.
pub fn bash_text(out: &str, err: Option<&str>, code: Option<i32>) -> (r: String)
    ensures
        r@ == bash_answer(out@, opt_str(err), code),
{
    let mut text = owned(out);
    if let Some(e) = err {
        let chars = chars_of(out);
        let n = chars.len();
        if n > 0 && chars[n - 1] != '\n' {
            text.push('\n');
        }
        text.push_str(e);
    }
    assert(text@ == both_outputs(out@, opt_str(err)));
    if text.as_str().is_empty() {
        text.push_str("(sin salida)");
        assert(text@ =~= "(sin salida)"@);
    }
    text.push_str("\n[código de salida: ");
    match code {
        Some(c) => text.push_str(i32_text(c).as_str()),
        None => text.push_str("señal"),
    }
    text.push_str("]");
    text
}

/// The text of what a command wrote, where it wrote anything.
pub open spec fn output_text(bytes: Seq<u8>) -> Option<Seq<char>> {
    if bytes.len() == 0 {
        None
    } else {
        Some(lossy(bytes))
    }
}

/// A text, empty where there is none.
pub open spec fn or_empty(o: Option<Seq<char>>) -> Seq<char> {
    match o {
        Some(s) => s,
        None => seq![],
    }
}

/// What `bash` answers, of the bytes that the command wrote to its two outputs.
pub fn bash_output(stdout: &Vec<u8>, stderr: &Vec<u8>, code: Option<i32>) -> (r: String)
    ensures
        r@ == bash_answer(or_empty(output_text(stdout@)), output_text(stderr@), code),
{
    let out = if stdout.len() == 0 {
        String::new()
    } else {
        lossy_text(stdout)
    };
    assert(out@ =~= or_empty(output_text(stdout@)));
    if stderr.len() == 0 {
        bash_text(out.as_str(), None, code)
    } else {
        let err = lossy_text(stderr);
        bash_text(out.as_str(), Some(err.as_str()), code)
    }
}

} // verus!
