use vstd::prelude::*;

use crate::git::{same_instant, Commit, Ref};
use crate::text::str_eq;

verus! {

/// `n` saturating additions of `k` to `o`.
pub open spec fn repeat_sat_add(o: int, k: int, n: nat) -> int
    decreases n,
{
    if n == 0 {
        o
    } else {
        crate::padding::sat_add_usize(repeat_sat_add(o, k, (n - 1) as nat), k)
    }
}

/// `n` saturating subtractions of `k` from `o`.
pub open spec fn repeat_sat_sub(o: int, k: int, n: nat) -> int
    decreases n,
{
    if n == 0 {
        o
    } else {
        crate::padding::sat_sub(repeat_sat_sub(o, k, (n - 1) as nat), k)
    }
}

/// Scroll position of the commit detail pane: the height of the visible area and the
/// index of the first visible line.
#[derive(Debug)]
pub struct CommitDetailState {
    height: usize,
    offset: usize,
}

impl Default for CommitDetailState {
    fn default() -> (s: Self)
        ensures
            s.height() == 0,
            s.offset() == 0,
    {
        CommitDetailState { height: 0, offset: 0 }
    }
}

impl CommitDetailState {
    /// The height of the visible area, as of the last render.
    pub closed spec fn height(&self) -> usize {
        self.height
    }

    /// The index of the first visible line.
    pub closed spec fn offset(&self) -> usize {
        self.offset
    }

    /// The index of the first visible line.
    pub fn current_offset(&self) -> (r: usize)
        ensures
            r == self.offset(),
    {
        self.offset
    }

    pub fn scroll_down(&mut self)
        ensures
            final(self).height() == old(self).height(),
            final(self).offset() == crate::padding::sat_add_usize(old(self).offset() as int, 1),
    {
        self.offset = self.offset.saturating_add(1);
    }

    pub fn scroll_up(&mut self)
        ensures
            final(self).height() == old(self).height(),
            final(self).offset() == crate::padding::sat_sub(old(self).offset() as int, 1),
    {
        self.offset = self.offset.saturating_sub(1);
    }

    pub fn scroll_page_down(&mut self)
        ensures
            final(self).height() == old(self).height(),
            final(self).offset() == crate::padding::sat_add_usize(old(self).offset() as int, old(self).height() as int),
    {
        self.offset = self.offset.saturating_add(self.height);
    }

    pub fn scroll_page_up(&mut self)
        ensures
            final(self).height() == old(self).height(),
            final(self).offset() == crate::padding::sat_sub(old(self).offset() as int, old(self).height() as int),
    {
        self.offset = self.offset.saturating_sub(self.height);
    }

    pub fn scroll_half_page_down(&mut self)
        ensures
            final(self).height() == old(self).height(),
            final(self).offset() == crate::padding::sat_add_usize(old(self).offset() as int, old(self).height() as int / 2),
    {
        self.offset = self.offset.saturating_add(self.height / 2);
    }

    pub fn scroll_half_page_up(&mut self)
        ensures
            final(self).height() == old(self).height(),
            final(self).offset() == crate::padding::sat_sub(old(self).offset() as int, old(self).height() as int / 2),
    {
        self.offset = self.offset.saturating_sub(self.height / 2);
    }

    pub fn select_first(&mut self)
        ensures
            final(self).height() == old(self).height(),
            final(self).offset() == 0,
    {
        self.offset = 0;
    }

    pub fn select_last(&mut self)
        ensures
            final(self).height() == old(self).height(),
            final(self).offset() == usize::MAX,
    {
        self.offset = usize::MAX;
    }

    /// Records the height of the area drawn into and keeps the offset from
    /// scrolling past the last screenful of `line_count` lines.
    pub fn update_state(&mut self, line_count: usize, area_height: usize)
        ensures
            final(self).height() == area_height,
            final(self).offset() == crate::padding::min_int(
                old(self).offset() as int,
                crate::padding::sat_sub(line_count as int, area_height as int),
            ),
    {
        self.height = area_height;
        let limit = line_count.saturating_sub(area_height);
        if limit < self.offset {
            self.offset = limit;
        }
    }
}

/// The author and the committer differ in name, e-mail or instant.
pub open spec fn author_committer_differ(c: Commit) -> bool {
    c.author_name@ != c.committer_name@ || c.author_email@ != c.committer_email@ || !same_instant(
        c.author_date,
        c.committer_date,
    )
}

/// Whether the committer is worth a line of its own.
pub fn is_author_committer_different(commit: &Commit) -> (r: bool)
    ensures
        r == author_committer_differ(*commit),
{
    !str_eq(commit.author_name.as_str(), commit.committer_name.as_str()) || !str_eq(
        commit.author_email.as_str(),
        commit.committer_email.as_str(),
    ) || commit.author_date.timestamp != commit.committer_date.timestamp || commit.author_date.nanos
        != commit.committer_date.nanos
}

/// Whether the commit has a parent.
pub fn has_parent(commit: &Commit) -> (r: bool)
    ensures
        r == (commit.parent_commit_hashes@.len() > 0),
{
    commit.parent_commit_hashes.len() > 0
}

/// Whether any of the refs is a branch, a remote branch or a tag.
pub fn has_refs(refs: &Vec<Ref>) -> (r: bool)
    ensures
        r == exists|i: int| 0 <= i < refs@.len() && !(#[trigger] refs@[i] is Stash),
{
    let mut i: usize = 0;
    while i < refs.len()
        invariant
            i <= refs@.len(),
            forall|j: int| 0 <= j < i ==> (#[trigger] refs@[j] is Stash),
        decreases refs@.len() - i,
    {
        match &refs[i] {
            Ref::Stash { .. } => {},
            _ => {
                return true;
            },
        }
        i += 1;
    }
    false
}

} // verus!
