//! Snapshots of the worktree, kept by `git` in a repository of their own.
use vstd::prelude::*;
use crate::path::{path_join, path_joined};
use crate::split::{lines, lines_of};
use crate::text::{opt_str, opt_view, owned, trim, trimmed, views};
use crate::text_laws::{tight, trimming_finds_the_text};

verus! {

/// The snapshots of a worktree.
#[derive(Debug)]
pub struct Snapshots {
    workdir: String,
    git_dir: String,
    available: bool,
}

/// What a [`Snapshots`] holds.
pub struct SnapshotsView {
    pub workdir: Seq<char>,
    pub git_dir: Seq<char>,
    pub available: bool,
}

impl View for Snapshots {
    type V = SnapshotsView;

    closed spec fn view(&self) -> SnapshotsView {
        SnapshotsView {
            workdir: self.workdir@,
            git_dir: self.git_dir@,
            available: self.available,
        }
    }
}

impl Clone for Snapshots {
    fn clone(&self) -> (r: Self)
        ensures
            r@ == self@,
    {
        Snapshots {
            workdir: self.workdir.clone(),
            git_dir: self.git_dir.clone(),
            available: self.available,
        }
    }
}

/// The arguments of a call of `git`.
pub type Args = Vec<String>;

/// The arguments, as texts.
pub open spec fn args_view(v: Option<Args>) -> Option<Seq<Seq<char>>> {
    match v {
        Some(a) => Some(views(a@)),
        None => None,
    }
}

/// A list of calls, as texts.
pub open spec fn calls_view(v: Seq<Args>) -> Seq<Seq<Seq<char>>> {
    v.map_values(|a: Args| views(a@))
}

fn args1(a: &str) -> (r: Args)
    ensures
        views(r@) == seq![a@],
{
    let mut v: Args = Vec::new();
    v.push(owned(a));
    assert(views(v@) =~= seq![a@]);
    v
}

fn args2(a: &str, b: &str) -> (r: Args)
    ensures
        views(r@) == seq![a@, b@],
{
    let mut v: Args = Vec::new();
    v.push(owned(a));
    v.push(owned(b));
    assert(views(v@) =~= seq![a@, b@]);
    v
}

fn args3(a: &str, b: &str, c: &str) -> (r: Args)
    ensures
        views(r@) == seq![a@, b@, c@],
{
    let mut v: Args = args2(a, b);
    let ghost before = v@;
    v.push(owned(c));
    assert(views(v@) =~= views(before).push(c@));
    assert(views(v@) =~= seq![a@, b@, c@]);
    v
}

fn args4(a: &str, b: &str, c: &str, d: &str) -> (r: Args)
    ensures
        views(r@) == seq![a@, b@, c@, d@],
{
    let mut v: Args = args3(a, b, c);
    let ghost before = v@;
    v.push(owned(d));
    assert(views(v@) =~= views(before).push(d@));
    assert(views(v@) =~= seq![a@, b@, c@, d@]);
    v
}

/// The calls that set up a repository.
pub open spec fn setup_calls(existed: bool) -> Seq<Seq<Seq<char>>> {
    if existed {
        seq![]
    } else {
        seq![
            seq!["init"@, "--quiet"@],
            seq!["config"@, "core.autocrlf"@, "false"@],
            seq!["config"@, "core.longpaths"@, "true"@],
            seq!["config"@, "core.symlinks"@, "true"@],
            seq!["config"@, "core.fsmonitor"@, "false"@],
        ]
    }
}

/// The files in what `git` lists, one in a line.
pub open spec fn listed_files(out: Seq<Seq<char>>) -> Seq<Seq<char>>
    decreases out.len(),
{
    if out.len() == 0 {
        seq![]
    } else {
        let before = listed_files(out.drop_last());
        let file = trimmed(out.last());
        if file.len() == 0 {
            before
        } else {
            before.push(file)
        }
    }
}

impl Snapshots {
    /// The snapshots of `workdir`, kept in `git_dir`; none can be taken unless `available`.
    pub fn new(workdir: &str, git_dir: &str, available: bool) -> (r: Self)
        ensures
            r@ == (SnapshotsView { workdir: workdir@, git_dir: git_dir@, available }),
    {
        Snapshots { workdir: owned(workdir), git_dir: owned(git_dir), available }
    }

    /// Whether snapshots can be taken.
    pub fn available(&self) -> (r: bool)
        ensures
            r == self@.available,
    {
        self.available
    }

    /// The worktree.
    pub fn workdir(&self) -> (r: &str)
        ensures
            r@ == self@.workdir,
    {
        self.workdir.as_str()
    }

    /// The repository.
    pub fn git_dir(&self) -> (r: &str)
        ensures
            r@ == self@.git_dir,
    {
        self.git_dir.as_str()
    }

    /// The calls that set up the repository, which may have `existed` before.
    pub fn open_calls(existed: bool) -> (r: Vec<Args>)
        ensures
            calls_view(r@) == setup_calls(existed),
    {
        let mut v: Vec<Args> = Vec::new();
        if !existed {
            v.push(args2("init", "--quiet"));
            v.push(args3("config", "core.autocrlf", "false"));
            v.push(args3("config", "core.longpaths", "true"));
            v.push(args3("config", "core.symlinks", "true"));
            v.push(args3("config", "core.fsmonitor", "false"));
        }
        assert(calls_view(v@) =~= setup_calls(existed));
        v
    }

    /// The call that takes in the worktree as it is; what the user has `git` ignore stays out.
    pub fn stage_call(&self) -> (r: Option<Args>)
        ensures
            args_view(r) == (if self@.available {
                Some(seq!["add"@, "--all"@])
            } else {
                None
            }),
    {
        if self.available {
            Some(args2("add", "--all"))
        } else {
            None
        }
    }

    /// The call that names what was taken in.
    pub fn track_call(&self) -> (r: Option<Args>)
        ensures
            args_view(r) == (if self@.available {
                Some(seq!["write-tree"@])
            } else {
                None
            }),
    {
        if self.available {
            Some(args1("write-tree"))
        } else {
            None
        }
    }

    /// The snapshot that `git` named; none where none can be taken.
    pub fn track(&self, out: &str) -> (r: Option<String>)
        ensures
            opt_view(r) == (if self@.available {
                Some(trimmed(out@))
            } else {
                None
            }),
    {
        if self.available {
            Some(trim(out))
        } else {
            None
        }
    }

    /// The call that lists the files that differ from the snapshot `hash`.
    pub fn patch_files_call(&self, hash: &str) -> (r: Option<Args>)
        ensures
            args_view(r) == (if self@.available {
                Some(seq!["diff"@, "--cached"@, "--name-only"@, hash@])
            } else {
                None
            }),
    {
        if self.available {
            Some(args4("diff", "--cached", "--name-only", hash))
        } else {
            None
        }
    }

    /// The files that `git` listed; none where no snapshots can be taken.
    pub fn patch_files(&self, out: &str) -> (r: Vec<String>)
        ensures
            views(r@) == (if self@.available {
                listed_files(lines_of(out@))
            } else {
                seq![]
            }),
    {
        let mut files: Vec<String> = Vec::new();
        assert(views(files@) =~= seq![]);
        if !self.available {
            return files;
        }
        let all = lines(out);
        let ghost v = views(all@);
        let mut i: usize = 0;
        assert(v.take(0) =~= seq![]);
        while i < all.len()
            invariant
                i <= all.len(),
                v == views(all@),
                views(files@) == listed_files(v.take(i as int)),
            decreases all.len() - i,
        {
            let file = trim(all[i].as_str());
            assert(v.take(i + 1).drop_last() =~= v.take(i as int));
            assert(v.take(i + 1).last() == all@[i as int]@);
            let ghost before = files@;
            if !file.as_str().is_empty() {
                files.push(file);
                assert(views(files@) =~= views(before).push(file@));
            }
            i = i + 1;
        }
        assert(v.take(i as int) =~= v);
        files
    }

    /// The call that shows what differs from the snapshot `hash`.
    pub fn patch_call(&self, hash: &str) -> (r: Option<Args>)
        ensures
            args_view(r) == (if self@.available {
                Some(seq!["diff"@, "--cached"@, "--unified=3"@, hash@])
            } else {
                None
            }),
    {
        if self.available {
            Some(args4("diff", "--cached", "--unified=3", hash))
        } else {
            None
        }
    }

    /// The call that shows what differs in the repository of the user.
    pub fn worktree_patch_call(&self) -> (r: Option<Args>)
        ensures
            args_view(r) == (if self@.available {
                Some(seq!["diff"@, "--no-ext-diff"@, "--unified=3"@])
            } else {
                None
            }),
    {
        if self.available {
            Some(args3("diff", "--no-ext-diff", "--unified=3"))
        } else {
            None
        }
    }

    /// What differs in the repository of the user, where `git` printed `out`; nothing where the
    /// call failed.
    pub fn worktree_patch(&self, ok: bool, out: &str) -> (r: String)
        ensures
            r@ == (if self@.available && ok {
                out@
            } else {
                seq![]
            }),
    {
        if self.available && ok {
            owned(out)
        } else {
            let s = String::new();
            assert(s@ =~= seq![]);
            s
        }
    }
}

/// The text of a call that failed: the first argument, how `git` ended, and what it said.
pub fn git_failure(args: &Args, status: &str, stderr: &str) -> (r: String)
    ensures
        r@ == "git "@ + (if args@.len() == 0 {
            seq![]
        } else {
            args@[0]@
        }) + " → "@ + status@ + ": "@ + trimmed(stderr@),
{
    let mut s = owned("git ");
    if args.len() > 0 {
        s.push_str(args[0].as_str());
    } else {
        assert("git "@ + seq![] =~= "git "@);
    }
    s.push_str(" → ");
    s.push_str(status);
    s.push_str(": ");
    s.push_str(trim(stderr).as_str());
    s
}

// ── Going back ────────────────────────────────────────────────────────────────

/// What is done next on the way back to a snapshot.
#[derive(Debug)]
pub enum RestoreAction {
    /// Call `git`.
    Git(Args),
    /// Delete the file at this path, where there is one.
    Delete(String),
    /// Nothing more.
    Done,
}

/// What a [`RestoreAction`] holds.
#[verifier::ext_equal]
pub enum RestoreActionView {
    Git(Seq<Seq<char>>),
    Delete(Seq<char>),
    Done,
}

impl View for RestoreAction {
    type V = RestoreActionView;

    open spec fn view(&self) -> RestoreActionView {
        match self {
            RestoreAction::Git(a) => RestoreActionView::Git(views(a@)),
            RestoreAction::Delete(p) => RestoreActionView::Delete(p@),
            RestoreAction::Done => RestoreActionView::Done,
        }
    }
}

/// How far one file has come.
#[derive(Debug, Clone, Copy, PartialEq, Eq, Structural)]
pub enum RestoreStage {
    /// Its content is to be taken from the snapshot.
    Checkout,
    /// That failed: is it in the snapshot?
    Look,
    /// It is not.
    Remove,
}

/// The way back to a snapshot.
#[derive(Debug)]
pub struct Restore {
    workdir: String,
    hash: String,
    /// The files that are left, the next one last.
    files: Vec<String>,
    stage: RestoreStage,
}

/// What a [`Restore`] holds: `files` are those that are left, the next one first.
#[verifier::ext_equal]
pub struct RestoreView {
    pub workdir: Seq<char>,
    pub hash: Seq<char>,
    pub files: Seq<Seq<char>>,
    pub stage: RestoreStage,
}

impl View for Restore {
    type V = RestoreView;

    closed spec fn view(&self) -> RestoreView {
        RestoreView {
            workdir: self.workdir@,
            hash: self.hash@,
            files: views(self.files@).reverse(),
            stage: self.stage,
        }
    }
}

/// What is done next.
pub open spec fn restore_action(r: RestoreView) -> RestoreActionView {
    if r.files.len() == 0 {
        RestoreActionView::Done
    } else {
        match r.stage {
            RestoreStage::Checkout => RestoreActionView::Git(
                seq!["checkout"@, r.hash, "--"@, r.files[0]],
            ),
            RestoreStage::Look => RestoreActionView::Git(
                seq!["ls-tree"@, r.hash, "--"@, r.files[0]],
            ),
            RestoreStage::Remove => RestoreActionView::Delete(
                path_joined(r.workdir, r.files[0]),
            ),
        }
    }
}

/// The way that is left after the next file.
pub open spec fn next_file(r: RestoreView) -> RestoreView {
    RestoreView { files: r.files.drop_first(), stage: RestoreStage::Checkout, ..r }
}

/// The way that is left once the action was done: `out` is what `git` printed, `None` where the
/// call failed. A file that is not in the snapshot goes away; one that is in it and cannot be
/// had stays as it is.
pub open spec fn restore_step(r: RestoreView, out: Option<Seq<char>>) -> RestoreView {
    if r.files.len() == 0 {
        r
    } else {
        match r.stage {
            RestoreStage::Checkout => if out is Some {
                next_file(r)
            } else {
                RestoreView { stage: RestoreStage::Look, ..r }
            },
            RestoreStage::Look => if out matches Some(s) && trimmed(s).len() > 0 {
                next_file(r)
            } else {
                RestoreView { stage: RestoreStage::Remove, ..r }
            },
            RestoreStage::Remove => next_file(r),
        }
    }
}

impl Snapshots {
    /// The way back to the snapshot `hash`, for `files`; nothing is done where no snapshots can
    /// be taken.
    pub fn restore(&self, hash: &str, files: &Vec<String>) -> (r: Restore)
        ensures
            r@ == (RestoreView {
                workdir: self@.workdir,
                hash: hash@,
                files: if self@.available {
                    views(files@)
                } else {
                    seq![]
                },
                stage: RestoreStage::Checkout,
            }),
    {
        let mut left: Vec<String> = Vec::new();
        if self.available {
            let mut i: usize = files.len();
            while i > 0
                invariant
                    i <= files.len(),
                    left@.len() == files@.len() - i,
                    forall|j: int|
                        0 <= j < left@.len() ==> (#[trigger] left@[j])@ == files@[files@.len() - 1
                            - j]@,
                decreases i,
            {
                i = i - 1;
                left.push(files[i].clone());
            }
            assert(views(left@).reverse() =~= views(files@));
        } else {
            assert(views(left@).reverse() =~= seq![]);
        }
        Restore {
            workdir: self.workdir.clone(),
            hash: owned(hash),
            files: left,
            stage: RestoreStage::Checkout,
        }
    }
}

impl Restore {
    /// What is done next.
    pub fn action(&self) -> (r: RestoreAction)
        ensures
            r@ == restore_action(self@),
    {
        let n = self.files.len();
        if n == 0 {
            return RestoreAction::Done;
        }
        let file = self.files[n - 1].as_str();
        assert(self@.files[0] == file@);
        match self.stage {
            RestoreStage::Checkout => RestoreAction::Git(
                args4("checkout", self.hash.as_str(), "--", file),
            ),
            RestoreStage::Look => RestoreAction::Git(
                args4("ls-tree", self.hash.as_str(), "--", file),
            ),
            RestoreStage::Remove => RestoreAction::Delete(path_join(self.workdir.as_str(), file)),
        }
    }

    /// Goes on once the action was done: `out` is what `git` printed, `None` where the call
    /// failed.
    pub fn advance(&mut self, out: Option<&str>)
        ensures
            final(self)@ == restore_step(old(self)@, opt_str(out)),
    {
        if self.files.len() == 0 {
            return;
        }
        let ghost before = self.files@;
        let found = match out {
            Some(s) => !trim(s).as_str().is_empty(),
            None => false,
        };
        match self.stage {
            RestoreStage::Checkout => {
                if out.is_some() {
                    self.files.pop();
                } else {
                    self.stage = RestoreStage::Look;
                }
            },
            RestoreStage::Look => {
                if found {
                    self.files.pop();
                    self.stage = RestoreStage::Checkout;
                } else {
                    self.stage = RestoreStage::Remove;
                }
            },
            RestoreStage::Remove => {
                self.files.pop();
                self.stage = RestoreStage::Checkout;
            },
        }
        proof {
            if self.files@.len() < before.len() {
                assert(views(self.files@).reverse() =~= views(before).reverse().drop_first());
            }
        }
    }
}

/// How many actions are left at most.
pub open spec fn restore_left(r: RestoreView) -> int {
    if r.files.len() == 0 {
        0
    } else {
        3 * r.files.len() - (match r.stage {
            RestoreStage::Checkout => 0int,
            RestoreStage::Look => 1,
            RestoreStage::Remove => 2,
        })
    }
}

/// The way back ends: every action brings the end nearer.
pub proof fn restore_ends(r: RestoreView, out: Option<Seq<char>>)
    requires
        r.files.len() > 0,
    ensures
        0 <= restore_left(restore_step(r, out)) < restore_left(r),
{
}

/// A file is deleted only where its content could not be had from the snapshot and the snapshot
/// does not hold it; whatever happens, the files after it are dealt with in turn.
pub proof fn only_new_files_are_deleted(
    r: RestoreView,
    checkout: Option<Seq<char>>,
    look: Option<Seq<char>>,
)
    requires
        r.files.len() > 0,
        r.stage == RestoreStage::Checkout,
    ensures
        checkout is Some ==> restore_step(r, checkout) == next_file(r),
        checkout is None ==> {
            let looked = restore_step(restore_step(r, checkout), look);
            &&& restore_action(looked) == RestoreActionView::Delete(
                path_joined(r.workdir, r.files[0]),
            ) && looked.files == r.files || looked == next_file(r)
            &&& (looked == next_file(r)) == (look matches Some(s) && trimmed(s).len() > 0)
            &&& looked.stage == RestoreStage::Remove ==> restore_step(looked, None) == next_file(r)
        },
{
    let s = restore_step(r, checkout);
    if checkout is None {
        let looked = restore_step(s, look);
        assert(next_file(r).files.len() < r.files.len());
        assert(next_file(s) =~= next_file(r));
        assert(next_file(looked) =~= next_file(r) || looked =~= next_file(r));
    }
}

/// The files that `git` names, one in a line, are listed in their order; blank lines name none.
pub proof fn every_named_file_is_listed(names: Seq<Seq<char>>)
    requires
        forall|i: int|
            0 <= i < names.len() ==> (#[trigger] names[i]).len() > 0 && tight(names[i]),
    ensures
        listed_files(names) == names,
        listed_files(names.push(seq![])) == names,
    decreases names.len(),
{
    assert(names.push(seq![]).drop_last() =~= names);
    trimming_finds_the_text(seq![], seq![], seq![]);
    assert(Seq::<char>::empty() + Seq::<char>::empty() + Seq::<char>::empty() =~= seq![]);
    if names.len() > 0 {
        let front = names.drop_last();
        assert forall|i: int| 0 <= i < front.len() implies (#[trigger] front[i]).len() > 0 && tight(
            front[i],
        ) by {
            assert(front[i] == names[i]);
        }
        every_named_file_is_listed(front);
        let last = names[names.len() - 1];
        trimming_finds_the_text(seq![], last, seq![]);
        assert(Seq::<char>::empty() + last + Seq::<char>::empty() =~= last);
        assert(names =~= front.push(last));
    } else {
        assert(listed_files(names) =~= names);
    }
}

/// The first thing that is done for a file is to take its content from the snapshot; a file whose
/// content came is done with, and the next one is taken from the same snapshot.
pub proof fn files_come_from_the_snapshot(r: RestoreView, out: Seq<char>)
    requires
        r.files.len() > 0,
        r.stage == RestoreStage::Checkout,
    ensures
        restore_action(r) == RestoreActionView::Git(
            seq!["checkout"@, r.hash, "--"@, r.files[0]],
        ),
        ({
            let next = restore_step(r, Some(out));
            &&& next.hash == r.hash && next.workdir == r.workdir
            &&& next.files == r.files.skip(1)
            &&& next.stage == RestoreStage::Checkout
            &&& r.files.len() > 1 ==> restore_action(next) == RestoreActionView::Git(
                seq!["checkout"@, r.hash, "--"@, r.files[1]],
            )
            &&& r.files.len() == 1 ==> restore_action(next) == RestoreActionView::Done
        }),
{
    assert(r.files.drop_first() =~= r.files.skip(1));
}

/// Where the content of a file could not be had, it is looked for in the same snapshot.
pub proof fn a_missing_file_is_looked_for(r: RestoreView)
    requires
        r.files.len() > 0,
        r.stage == RestoreStage::Checkout,
    ensures
        restore_action(restore_step(r, None)) == RestoreActionView::Git(
            seq!["ls-tree"@, r.hash, "--"@, r.files[0]],
        ),
{
}

} // verus!
