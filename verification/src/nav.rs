//! Going from file to file in the panel of changes.
use vstd::prelude::*;
use crate::effect::{Effect, EffectView};
use crate::markup::{escape_markup, escaped};
use crate::number::{decimal, usize_text};
use crate::text::{concat3, views};

verus! {

/// The files of the panel, and the one in view.
#[derive(Debug)]
pub struct Nav {
    index: usize,
    files: Vec<String>,
}

/// What a [`Nav`] holds.
#[verifier::ext_equal]
pub struct NavView {
    pub index: nat,
    pub files: Seq<Seq<char>>,
}

impl View for Nav {
    type V = NavView;

    closed spec fn view(&self) -> NavView {
        NavView { index: self.index as nat, files: views(self.files@) }
    }
}

/// Whether one of the files is in view, where there are files.
pub open spec fn nav_ok(n: NavView) -> bool {
    n.index < n.files.len() || (n.index == 0 && n.files.len() == 0)
}

/// These files, with the first in view.
pub open spec fn nav_of(files: Seq<Seq<char>>) -> NavView {
    NavView { index: 0, files }
}

/// Whether there is a file before the one in view.
pub open spec fn has_prev(n: NavView) -> bool {
    n.files.len() > 0 && n.index > 0
}

/// Whether there is a file behind the one in view.
pub open spec fn has_next(n: NavView) -> bool {
    n.files.len() > 0 && n.index + 1 < n.files.len()
}

/// The file before.
pub open spec fn nav_back(n: NavView) -> NavView {
    NavView { index: (n.index - 1) as nat, ..n }
}

/// The next file.
pub open spec fn nav_forward(n: NavView) -> NavView {
    NavView { index: n.index + 1, ..n }
}

/// Which file is in view, as markup.
pub open spec fn nav_markup(n: NavView) -> Seq<char> {
    "<b>"@ + escaped(n.files[n.index as int]) + "</b> ("@ + decimal(n.index + 1) + "/"@ + decimal(
        n.files.len(),
    ) + ")"@
}

/// What the bar shows.
pub open spec fn nav_label(n: NavView) -> EffectView {
    EffectView::NavLabel { markup: nav_markup(n), prev: has_prev(n), next: has_next(n) }
}

impl Nav {
    #[verifier::type_invariant]
    spec fn inv(&self) -> bool {
        self.index < self.files@.len() || (self.index == 0 && self.files@.len() == 0)
    }

    /// These files, with the first in view.
    pub fn new(files: Vec<String>) -> (r: Self)
        ensures
            r@ == nav_of(views(files@)),
    {
        Nav { index: 0, files }
    }

    /// How many files there are.
    pub fn len(&self) -> (r: usize)
        ensures
            r == self@.files.len(),
    {
        self.files.len()
    }

    /// The place of the file in view.
    pub fn index(&self) -> (r: usize)
        ensures
            r == self@.index,
            nav_ok(self@),
    {
        proof {
            use_type_invariant(&*self);
        }
        self.index
    }

    /// Goes to the file before, where there is one.
    pub fn back(&mut self) -> (r: bool)
        ensures
            r == has_prev(old(self)@),
            final(self)@ == (if r {
                nav_back(old(self)@)
            } else {
                old(self)@
            }),
            nav_ok(final(self)@),
    {
        proof {
            use_type_invariant(&*self);
        }
        if self.files.len() == 0 || self.index == 0 {
            return false;
        }
        self.index = self.index - 1;
        true
    }

    /// Goes to the next file, where there is one.
    pub fn forward(&mut self) -> (r: bool)
        ensures
            r == has_next(old(self)@),
            final(self)@ == (if r {
                nav_forward(old(self)@)
            } else {
                old(self)@
            }),
            nav_ok(final(self)@),
    {
        proof {
            use_type_invariant(&*self);
        }
        if self.files.len() == 0 || self.index >= self.files.len() - 1 {
            return false;
        }
        self.index = self.index + 1;
        true
    }

    /// What the bar shows.
    pub fn label(&self) -> (r: Effect)
        requires
            self@.files.len() > 0,
        ensures
            r@ == nav_label(self@),
    {
        proof {
            use_type_invariant(&*self);
        }
        let mut markup = concat3(
            "<b>",
            escape_markup(self.files[self.index].as_str()).as_str(),
            "</b> (",
        );
        let total = self.files.len();
        markup.push_str(usize_text(self.index + 1).as_str());
        markup.push_str("/");
        markup.push_str(usize_text(total).as_str());
        markup.push_str(")");
        Effect::NavLabel { markup, prev: self.index > 0, next: self.index + 1 < total }
    }
}

/// Going back undoes going forward, and the other way round.
pub proof fn back_undoes_forward(n: NavView)
    ensures
        has_next(n) ==> has_prev(nav_forward(n)) && nav_back(nav_forward(n)) == n,
        has_prev(n) && nav_ok(n) ==> has_next(nav_back(n)) && nav_forward(nav_back(n)) == n,
{
}

} // verus!
