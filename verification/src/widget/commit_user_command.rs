use vstd::prelude::*;

verus! {

/// Scroll position of the user command output pane: the height of the visible area and the
/// index of the first visible line.
#[derive(Debug)]
pub struct CommitUserCommandState {
    height: usize,
    offset: usize,
}

impl Default for CommitUserCommandState {
    fn default() -> (s: Self)
        ensures
            s.height() == 0,
            s.offset() == 0,
    {
        CommitUserCommandState { height: 0, offset: 0 }
    }
}

impl CommitUserCommandState {
    /// The height of the visible area, as of the last render.
    pub closed spec fn height(&self) -> usize {
        self.height
    }

    /// The index of the first visible line.
    pub closed spec fn offset(&self) -> usize {
        self.offset
    }

    /// The index of the first visible line.
    pub fn current_offset(&self) -> (r: usize)
        ensures
            r == self.offset(),
    {
        self.offset
    }

    pub fn scroll_down(&mut self)
        ensures
            final(self).height() == old(self).height(),
            final(self).offset() == crate::padding::sat_add_usize(old(self).offset() as int, 1),
    {
        self.offset = self.offset.saturating_add(1);
    }

    pub fn scroll_up(&mut self)
        ensures
            final(self).height() == old(self).height(),
            final(self).offset() == crate::padding::sat_sub(old(self).offset() as int, 1),
    {
        self.offset = self.offset.saturating_sub(1);
    }

    pub fn scroll_page_down(&mut self)
        ensures
            final(self).height() == old(self).height(),
            final(self).offset() == crate::padding::sat_add_usize(old(self).offset() as int, old(self).height() as int),
    {
        self.offset = self.offset.saturating_add(self.height);
    }

    pub fn scroll_page_up(&mut self)
        ensures
            final(self).height() == old(self).height(),
            final(self).offset() == crate::padding::sat_sub(old(self).offset() as int, old(self).height() as int),
    {
        self.offset = self.offset.saturating_sub(self.height);
    }

    pub fn scroll_half_page_down(&mut self)
        ensures
            final(self).height() == old(self).height(),
            final(self).offset() == crate::padding::sat_add_usize(old(self).offset() as int, old(self).height() as int / 2),
    {
        self.offset = self.offset.saturating_add(self.height / 2);
    }

    pub fn scroll_half_page_up(&mut self)
        ensures
            final(self).height() == old(self).height(),
            final(self).offset() == crate::padding::sat_sub(old(self).offset() as int, old(self).height() as int / 2),
    {
        self.offset = self.offset.saturating_sub(self.height / 2);
    }

    pub fn select_first(&mut self)
        ensures
            final(self).height() == old(self).height(),
            final(self).offset() == 0,
    {
        self.offset = 0;
    }

    pub fn select_last(&mut self)
        ensures
            final(self).height() == old(self).height(),
            final(self).offset() == usize::MAX,
    {
        self.offset = usize::MAX;
    }

    /// Records the height of the area drawn into and keeps the offset from
    /// scrolling past the last screenful of `line_count` lines.
    pub fn update_state(&mut self, line_count: usize, area_height: usize)
        ensures
            final(self).height() == area_height,
            final(self).offset() == crate::padding::min_int(
                old(self).offset() as int,
                crate::padding::sat_sub(line_count as int, area_height as int),
            ),
    {
        self.height = area_height;
        let limit = line_count.saturating_sub(area_height);
        if limit < self.offset {
            self.offset = limit;
        }
    }
}

} // verus!
