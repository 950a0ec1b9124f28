//! Scrolling: the offset of the viewport into the rendered lines.

use vstd::prelude::*;

verus! {

/// Where the viewport stands: the index of the first line shown, and the
/// number of lines there were at the last render.
#[derive(Debug, Clone, Copy, PartialEq, Eq)]
pub struct ScrollState {
    pub offset: usize,
    pub total_lines: usize,
}

/// The largest offset at which a viewport of `view_height` lines still
/// shows lines only, given `total_lines` of them.
pub open spec fn max_offset(total_lines: int, view_height: int) -> int {
    if total_lines > view_height {
        total_lines - view_height
    } else {
        0
    }
}

/// `offset` brought into the range that `max_offset` allows.
pub open spec fn clamped(offset: int, total_lines: int, view_height: int) -> int {
    if offset > max_offset(total_lines, view_height) {
        max_offset(total_lines, view_height)
    } else {
        offset
    }
}

impl ScrollState {
    /// The viewport at the top of an empty list.
    pub fn new() -> (s: ScrollState)
        ensures
            s.offset == 0,
            s.total_lines == 0,
    {
        ScrollState { offset: 0, total_lines: 0 }
    }

    /// Records the number of lines and brings the offset back into range:
    /// at most `total_lines - view_height` when there are more lines than
    /// fit, zero when all fit.
    pub fn update_total_and_clamp(&mut self, total_lines: usize, view_height: usize)
        ensures
            final(self).total_lines == total_lines,
            final(self).offset == clamped(old(self).offset as int, total_lines as int, view_height as int),
            0 <= final(self).offset <= max_offset(total_lines as int, view_height as int),
    {
        self.total_lines = total_lines;
        if self.total_lines > view_height {
            let max_scroll = self.total_lines - view_height;
            if self.offset > max_scroll {
                self.offset = max_scroll;
            }
        } else {
            self.offset = 0;
        }
    }

    /// Moves the viewport up by `n` lines, stopping at the top.
    pub fn scroll_up(&mut self, n: usize)
        ensures
            final(self).total_lines == old(self).total_lines,
            final(self).offset == if old(self).offset >= n {
                old(self).offset - n
            } else {
                0
            },
    {
        self.offset = if self.offset >= n {
            self.offset - n
        } else {
            0
        };
    }

    /// Moves the viewport down by `n` lines. The offset may come to lie
    /// past the end until the next clamp; it never wraps around.
    pub fn scroll_down(&mut self, n: usize)
        ensures
            final(self).total_lines == old(self).total_lines,
            final(self).offset == if old(self).offset + n > usize::MAX {
                usize::MAX as int
            } else {
                old(self).offset + n
            },
    {
        self.offset = if n > usize::MAX - self.offset {
            usize::MAX
        } else {
            self.offset + n
        };
    }

    /// Moves the viewport to the top.
    pub fn scroll_home(&mut self)
        ensures
            final(self).total_lines == old(self).total_lines,
            final(self).offset == 0,
    {
        self.offset = 0;
    }

    /// Moves the viewport to the end: the offset becomes the largest there
    /// is, and the next clamp brings it to the last full page.
    pub fn scroll_end(&mut self)
        ensures
            final(self).total_lines == old(self).total_lines,
            final(self).offset == usize::MAX,
    {
        self.offset = usize::MAX;
    }

    /// The index of the first line shown.
    pub fn offset(&self) -> (r: usize)
        ensures
            r == self.offset,
    {
        self.offset
    }
}

/// After a jump to the end, the clamp shows the last full page.
pub proof fn lemma_end_then_clamp_shows_last_page(total_lines: usize, view_height: usize)
    ensures
        clamped(usize::MAX as int, total_lines as int, view_height as int) == max_offset(
            total_lines as int,
            view_height as int,
        ),
{
}

} // verus!
