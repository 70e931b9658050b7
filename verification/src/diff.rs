//! The files and lines of a patch.
use vstd::prelude::*;
use crate::markup::{escape_markup, escaped};
use crate::number::{decimal, pad_left, padded_left, parse_usize, parsed_usize, usize_text};
use crate::search::{after_prefix, starts_with, strip_prefix};
use crate::split::{lines, lines_of, pieces, pieces_hold_no_separator, split_char, split_words,
    words};
use crate::text::{chars_of, opt_view, owned, string_of, views};

verus! {

/// What a line of a patch does.
#[derive(Debug, Clone, Copy, PartialEq, Eq, Structural)]
pub enum DiffLineKind {
    Context,
    Addition,
    Deletion,
}

/// A line of a patch, with its number in the old file and in the new one.
#[derive(Debug)]
pub struct DiffLine {
    pub old: Option<usize>,
    pub new: Option<usize>,
    pub kind: DiffLineKind,
    pub text: String,
}

/// What a [`DiffLine`] holds.
pub struct DiffLineView {
    pub old: Option<usize>,
    pub new: Option<usize>,
    pub kind: DiffLineKind,
    pub text: Seq<char>,
}

impl View for DiffLine {
    type V = DiffLineView;

    open spec fn view(&self) -> DiffLineView {
        DiffLineView { old: self.old, new: self.new, kind: self.kind, text: self.text@ }
    }
}

/// A file of a patch.
#[derive(Debug)]
pub struct DiffFile {
    pub path: String,
    pub lines: Vec<DiffLine>,
}

/// What a [`DiffFile`] holds.
#[verifier::ext_equal]
pub struct DiffFileView {
    pub path: Seq<char>,
    pub lines: Seq<DiffLineView>,
}

impl View for DiffFile {
    type V = DiffFileView;

    open spec fn view(&self) -> DiffFileView {
        DiffFileView {
            path: self.path@,
            lines: self.lines@.map_values(|l: DiffLine| l@),
        }
    }
}

/// The views of a list of files.
pub open spec fn file_views(files: Seq<DiffFile>) -> Seq<DiffFileView> {
    files.map_values(|f: DiffFile| f@)
}

// ── Headers ───────────────────────────────────────────────────────────────────

/// `s` without the prefix `p`, or as it is where it does not have it.
pub open spec fn without_prefix(s: Seq<char>, p: Seq<char>) -> Seq<char> {
    match after_prefix(s, p) {
        Some(rest) => rest,
        None => s,
    }
}

/// The path that the header of a file names: its second word, without `b/`.
pub open spec fn diff_path(header: Seq<char>) -> Option<Seq<char>> {
    let w = words(header);
    if w.len() > 1 {
        Some(without_prefix(w[1], "b/"@))
    } else {
        None
    }
}

/// The path that the header of a file names.
pub fn parse_diff_path(line: &str) -> (r: Option<String>)
    ensures
        opt_view(r) == diff_path(line@),
{
    let w = split_words(line);
    assert(w@.len() == words(line@).len());
    if w.len() > 1 {
        assert(views(w@)[1] == w@[1]@);
        match strip_prefix(w[1].as_str(), "b/") {
            Some(rest) => Some(rest),
            None => Some(w[1].clone()),
        }
    } else {
        None
    }
}

/// The number at which a side of a hunk starts: behind a sign of one byte and before a comma.
pub open spec fn hunk_start(part: Seq<char>) -> Option<nat> {
    if part.len() > 0 && (part[0] as u32) < 128 {
        parsed_usize(pieces(part.skip(1), ',')[0])
    } else {
        None
    }
}

/// The number at which a side of a hunk starts.
pub fn parse_hunk_start(part: &str) -> (r: Option<usize>)
    ensures
        r is Some <==> hunk_start(part@) is Some,
        r matches Some(n) ==> hunk_start(part@) == Some(n as nat),
{
    let chars = chars_of(part);
    if chars.len() == 0 || (chars[0] as u32) >= 128 {
        return None;
    }
    let rest = string_of(&chars, 1, chars.len());
    assert(rest@ =~= part@.skip(1));
    let parts = split_char(rest.as_str(), ',');
    proof {
        pieces_hold_no_separator(rest@, ',');
    }
    assert(views(parts@)[0] == parts@[0]@);
    parse_usize(parts[0].as_str())
}

/// The numbers at which the two sides of a hunk start.
pub open spec fn hunk_lines(line: Seq<char>) -> Option<(nat, nat)> {
    let w = words(line);
    if w.len() < 3 {
        None
    } else {
        match (hunk_start(w[1]), hunk_start(w[2])) {
            (Some(old), Some(new)) => Some((old, new)),
            _ => None,
        }
    }
}

/// The numbers at which the two sides of a hunk start.
pub fn parse_hunk_lines(line: &str) -> (r: Option<(usize, usize)>)
    ensures
        r is Some <==> hunk_lines(line@) is Some,
        r matches Some(p) ==> hunk_lines(line@) == Some((p.0 as nat, p.1 as nat)),
{
    let w = split_words(line);
    assert(w@.len() == words(line@).len());
    if w.len() < 3 {
        return None;
    }
    assert(views(w@)[1] == w@[1]@);
    assert(views(w@)[2] == w@[2]@);
    match parse_hunk_start(w[1].as_str()) {
        Some(old) => match parse_hunk_start(w[2].as_str()) {
            Some(new) => Some((old, new)),
            None => None,
        },
        None => None,
    }
}

// ── Lines ─────────────────────────────────────────────────────────────────────

/// What was read of a patch so far.
#[verifier::ext_equal]
pub struct PatchView {
    /// The files that are complete.
    pub files: Seq<DiffFileView>,
    /// The file that is being read.
    pub current: Option<DiffFileView>,
    /// The number of the next line in the old file and in the new one, once a hunk gave it.
    pub old: Option<usize>,
    pub new: Option<usize>,
}

/// Nothing read.
pub open spec fn patch_start() -> PatchView {
    PatchView { files: seq![], current: None, old: None, new: None }
}

/// The number behind `n`; it starts again at zero behind the largest one.
pub open spec fn next_number(n: Option<usize>) -> Option<usize> {
    match n {
        Some(k) => if k == usize::MAX {
            Some(0usize)
        } else {
            Some((k + 1) as usize)
        },
        None => None,
    }
}

/// The number of a line; zero where no hunk gave one.
pub open spec fn number_or_zero(n: Option<usize>) -> usize {
    match n {
        Some(k) => k,
        None => 0,
    }
}

/// The files of `p` with the current one, unless that has no lines.
pub open spec fn files_closed(p: PatchView) -> Seq<DiffFileView> {
    match p.current {
        Some(f) => if f.lines.len() > 0 {
            p.files.push(f)
        } else {
            p.files
        },
        None => p.files,
    }
}

/// The current file with the line `l`.
pub open spec fn with_line(current: Option<DiffFileView>, l: DiffLineView) -> Option<
    DiffFileView,
> {
    match current {
        Some(f) => Some(DiffFileView { lines: f.lines.push(l), ..f }),
        None => None,
    }
}

/// The path of the file that `line` opens, where it opens one.
pub open spec fn opened_file(line: Seq<char>) -> Option<Seq<char>> {
    match after_prefix(line, "diff --git "@) {
        Some(rest) => diff_path(rest),
        None => None,
    }
}

/// Whether `line` says something of the file and holds no text of it.
pub open spec fn is_file_note(line: Seq<char>) -> bool {
    ||| "+++"@.is_prefix_of(line)
    ||| "---"@.is_prefix_of(line)
    ||| "index "@.is_prefix_of(line)
    ||| "new file mode "@.is_prefix_of(line)
    ||| "deleted file mode "@.is_prefix_of(line)
}

/// `p` with the next line of the patch.
pub open spec fn patch_with(p: PatchView, line: Seq<char>) -> PatchView {
    if opened_file(line) is Some {
        PatchView {
            files: files_closed(p),
            current: Some(DiffFileView { path: opened_file(line)->0, lines: seq![] }),
            old: None,
            new: None,
        }
    } else if "@@"@.is_prefix_of(line) {
        match hunk_lines(line) {
            Some((old, new)) => PatchView {
                old: Some(old as usize),
                new: Some(new as usize),
                ..p
            },
            None => p,
        }
    } else if is_file_note(line) || line.len() == 0 {
        p
    } else if line[0] == '+' {
        PatchView {
            current: with_line(
                p.current,
                DiffLineView {
                    old: None,
                    new: Some(number_or_zero(p.new)),
                    kind: DiffLineKind::Addition,
                    text: line.skip(1),
                },
            ),
            new: next_number(p.new),
            ..p
        }
    } else if line[0] == '-' {
        PatchView {
            current: with_line(
                p.current,
                DiffLineView {
                    old: Some(number_or_zero(p.old)),
                    new: None,
                    kind: DiffLineKind::Deletion,
                    text: line.skip(1),
                },
            ),
            old: next_number(p.old),
            ..p
        }
    } else if line[0] == ' ' {
        PatchView {
            current: with_line(
                p.current,
                DiffLineView {
                    old: Some(number_or_zero(p.old)),
                    new: Some(number_or_zero(p.new)),
                    kind: DiffLineKind::Context,
                    text: line.skip(1),
                },
            ),
            old: next_number(p.old),
            new: next_number(p.new),
            ..p
        }
    } else {
        p
    }
}

/// What was read after all of `lines`.
pub open spec fn patch_after(lines: Seq<Seq<char>>) -> PatchView
    decreases lines.len(),
{
    if lines.len() == 0 {
        patch_start()
    } else {
        patch_with(patch_after(lines.drop_last()), lines.last())
    }
}

/// The files of a patch that have lines.
pub open spec fn patch_files(patch: Seq<char>) -> Seq<DiffFileView> {
    files_closed(patch_after(lines_of(patch)))
}

/// What was read of a patch so far.
struct PatchReader {
    files: Vec<DiffFile>,
    current: Option<DiffFile>,
    old: Option<usize>,
    new: Option<usize>,
}

impl View for PatchReader {
    type V = PatchView;

    closed spec fn view(&self) -> PatchView {
        PatchView {
            files: file_views(self.files@),
            current: match self.current {
                Some(f) => Some(f@),
                None => None,
            },
            old: self.old,
            new: self.new,
        }
    }
}

/// The number behind `n`.
fn next_line(n: Option<usize>) -> (r: Option<usize>)
    ensures
        r == next_number(n),
{
    match n {
        Some(k) => if k == usize::MAX {
            Some(0)
        } else {
            Some(k + 1)
        },
        None => None,
    }
}

/// The number of a line; zero where no hunk gave one.
fn line_number(n: Option<usize>) -> (r: usize)
    ensures
        r == number_or_zero(n),
{
    match n {
        Some(k) => k,
        None => 0,
    }
}

impl PatchReader {
    /// Puts the current file behind the others, unless it has no lines.
    fn close(&mut self)
        ensures
            file_views(final(self).files@) == files_closed(old(self)@),
            final(self).current is None,
            final(self).old == old(self).old,
            final(self).new == old(self).new,
    {
        let ghost before = *self;
        let mut current: Option<DiffFile> = None;
        std::mem::swap(&mut current, &mut self.current);
        if let Some(f) = current {
            assert(f@.lines.len() == f.lines@.len());
            if f.lines.len() > 0 {
                self.files.push(f);
                assert(file_views(self.files@) =~= file_views(before.files@).push(f@));
            }
        }
    }

    /// Puts a line into the current file.
    fn add_line(&mut self, l: DiffLine)
        ensures
            final(self)@ == (PatchView {
                current: with_line(old(self)@.current, l@),
                ..old(self)@
            }),
    {
        let ghost before = self@;
        let mut current: Option<DiffFile> = None;
        std::mem::swap(&mut current, &mut self.current);
        if let Some(f) = current {
            let mut f = f;
            let ghost was = f@;
            f.lines.push(l);
            assert(f@ =~= (DiffFileView { lines: was.lines.push(l@), ..was }));
            self.current = Some(f);
        }
    }

    /// Takes in the next line of the patch.
    fn read(&mut self, line: &str)
        ensures
            final(self)@ == patch_with(old(self)@, line@),
    {
        let opened: Option<String> = match strip_prefix(line, "diff --git ") {
            Some(rest) => parse_diff_path(rest.as_str()),
            None => None,
        };
        assert(opt_view(opened) == opened_file(line@));
        if let Some(path) = opened {
            self.close();
            let f = DiffFile { path, lines: Vec::new() };
            assert(f@.lines =~= seq![]);
            self.current = Some(f);
            self.old = None;
            self.new = None;
            return;
        }
        if starts_with(line, "@@") {
            if let Some((old, new)) = parse_hunk_lines(line) {
                self.old = Some(old);
                self.new = Some(new);
            }
            return;
        }
        if starts_with(line, "+++") || starts_with(line, "---") || starts_with(line, "index ")
            || starts_with(line, "new file mode ") || starts_with(line, "deleted file mode ") {
            return;
        }
        let chars = chars_of(line);
        if chars.len() == 0 {
            return;
        }
        let text = string_of(&chars, 1, chars.len());
        assert(text@ =~= line@.skip(1));
        if chars[0] == '+' {
            let new = line_number(self.new);
            self.add_line(
                DiffLine { old: None, new: Some(new), kind: DiffLineKind::Addition, text },
            );
            self.new = next_line(self.new);
        } else if chars[0] == '-' {
            let old = line_number(self.old);
            self.add_line(
                DiffLine { old: Some(old), new: None, kind: DiffLineKind::Deletion, text },
            );
            self.old = next_line(self.old);
        } else if chars[0] == ' ' {
            let old = line_number(self.old);
            let new = line_number(self.new);
            self.add_line(
                DiffLine { old: Some(old), new: Some(new), kind: DiffLineKind::Context, text },
            );
            self.old = next_line(self.old);
            self.new = next_line(self.new);
        }
    }
}

/// The files of a patch that have lines.
pub fn parse_patch_files(patch: &str) -> (r: Vec<DiffFile>)
    ensures
        file_views(r@) == patch_files(patch@),
{
    let all = lines(patch);
    let ghost ls = lines_of(patch@);
    let mut reader = PatchReader { files: Vec::new(), current: None, old: None, new: None };
    assert(reader@ =~= patch_start());
    assert(ls.take(0) =~= seq![]);
    let mut i: usize = 0;
    while i < all.len()
        invariant
            i <= all.len(),
            views(all@) == ls,
            reader@ == patch_after(ls.take(i as int)),
        decreases all.len() - i,
    {
        assert(views(all@)[i as int] == all@[i as int]@);
        reader.read(all[i].as_str());
        assert(ls.take(i + 1).drop_last() =~= ls.take(i as int));
        i = i + 1;
    }
    assert(ls.take(i as int) =~= ls);
    reader.close();
    reader.files
}

// ── Laws ──────────────────────────────────────────────────────────────────────

/// Whether the numbers of a line fit what it does: an added line has no number in the old file, a
/// deleted one none in the new file.
pub open spec fn line_fits(l: DiffLineView) -> bool {
    &&& l.old is None <==> l.kind == DiffLineKind::Addition
    &&& l.new is None <==> l.kind == DiffLineKind::Deletion
}

/// Whether the numbers of all lines of a file fit what they do.
pub open spec fn file_fits(f: DiffFileView) -> bool {
    forall|i: int| 0 <= i < f.lines.len() ==> line_fits(#[trigger] f.lines[i])
}

proof fn reading_fits(lines: Seq<Seq<char>>)
    ensures
        forall|i: int|
            0 <= i < patch_after(lines).files.len() ==> file_fits(
                #[trigger] patch_after(lines).files[i],
            ) && patch_after(lines).files[i].lines.len() > 0,
        patch_after(lines).current matches Some(f) ==> file_fits(f),
    decreases lines.len(),
{
    if lines.len() > 0 {
        reading_fits(lines.drop_last());
    }
}

/// Every file of a patch has lines, and the numbers of each line fit what it does.
pub proof fn patch_files_fit(patch: Seq<char>, i: int)
    requires
        0 <= i < patch_files(patch).len(),
    ensures
        patch_files(patch)[i].lines.len() > 0,
        file_fits(patch_files(patch)[i]),
{
    reading_fits(lines_of(patch));
}

// ── Display ───────────────────────────────────────────────────────────────────

/// A line number in four columns.
pub open spec fn number_column(n: Option<usize>) -> Seq<char> {
    match n {
        Some(k) => padded_left(decimal(k as nat), 4),
        None => "    "@,
    }
}

/// The mark of a line.
pub open spec fn line_mark(kind: DiffLineKind) -> Seq<char> {
    match kind {
        DiffLineKind::Context => " "@,
        DiffLineKind::Addition => "+"@,
        DiffLineKind::Deletion => "-"@,
    }
}

/// The style of a line.
pub open spec fn line_class(kind: DiffLineKind) -> Option<Seq<char>> {
    match kind {
        DiffLineKind::Context => None,
        DiffLineKind::Addition => Some("diff-line-addition"@),
        DiffLineKind::Deletion => Some("diff-line-deletion"@),
    }
}

/// A line of a patch in markup: its two numbers, its mark and its text.
pub open spec fn line_markup(l: DiffLineView) -> Seq<char> {
    number_column(l.old) + seq![' '] + number_column(l.new) + seq![' '] + line_mark(l.kind)
        + seq![' '] + escaped(l.text)
}

/// A line number in four columns.
fn number_text(n: Option<usize>) -> (r: String)
    ensures
        r@ == number_column(n),
{
    match n {
        Some(k) => pad_left(usize_text(k).as_str(), 4),
        None => owned("    "),
    }
}

/// A line of a patch in markup.
pub fn diff_line_markup(l: &DiffLine) -> (r: String)
    ensures
        r@ == line_markup(l@),
{
    let mut out = number_text(l.old);
    out.push(' ');
    out.push_str(number_text(l.new).as_str());
    out.push(' ');
    out.push_str(
        match l.kind {
            DiffLineKind::Context => " ",
            DiffLineKind::Addition => "+",
            DiffLineKind::Deletion => "-",
        },
    );
    out.push(' ');
    out.push_str(escape_markup(l.text.as_str()).as_str());
    assert(out@ =~= line_markup(l@));
    out
}

/// The style of a line of a patch.
pub fn diff_line_class(kind: DiffLineKind) -> (r: Option<&'static str>)
    ensures
        crate::text::opt_str(r) == line_class(kind),
{
    match kind {
        DiffLineKind::Context => None,
        DiffLineKind::Addition => Some("diff-line-addition"),
        DiffLineKind::Deletion => Some("diff-line-deletion"),
    }
}

} // verus!
