//! The viewport: the visible window over the document. `top` and `left` are
//! the document-space scroll origin (rows and display columns), `width` and
//! `height` the visible size. Scrolling is minimal: `scroll_into_view`
//! returns `None` when no adjustment is needed.
use vstd::prelude::*;

use crate::editor::content::EditorContent;
use crate::editor::pos::PosInDocument;
use crate::editor::row::min_int;

verus! {

pub type PosOnScreen = (u16, u16);

pub type ViewportDimensions = (u16, u16);

pub type ScrollCommand = Option<PosInDocument>;

pub struct Viewport {
    pub left: usize,
    pub top: usize,
    pub width: u16,
    pub height: u16,
}

/// The scroll origin one axis needs so that `pos` becomes visible: scroll
/// back to `pos` when it lies before the window, forward to the last
/// position of a window ending at `pos` when it lies at or past the window's
/// end, and not at all otherwise.
pub open spec fn scroll_into(pos: int, start: int, size: int) -> int {
    if pos < start {
        pos
    } else if pos - start >= size {
        if pos - size + 1 > usize::MAX {
            usize::MAX as int
        } else {
            pos - size + 1
        }
    } else {
        start
    }
}

/// A screen coordinate translated into the document by `base`, clamped at
/// the machine limits; both coordinate systems are 1-based on screen.
pub open spec fn abs_coord(base: int, rel: int) -> int {
    let sum = if base + rel > usize::MAX {
        usize::MAX as int
    } else {
        base + rel
    };
    if sum < 1 {
        0
    } else {
        sum - 1
    }
}

impl Viewport {
    pub fn new(left: usize, top: usize, width: u16, height: u16) -> (v: Self)
        ensures
            v.left == left && v.top == top && v.width == width && v.height == height,
    {
        Self { left, top, width, height }
    }

    /// The scroll origin, as `(top, left)`.
    pub fn pos(&self) -> (p: PosInDocument)
        ensures
            p == (self.top, self.left),
    {
        (self.top, self.left)
    }

    /// The visible size, as `(width, height)`.
    pub fn size(&self) -> (s: ViewportDimensions)
        ensures
            s == (self.width, self.height),
    {
        (self.width, self.height)
    }

    /// Whether the document position `(row, col)` lies inside the visible
    /// window; `col` is measured in display columns.
    pub fn cursor_within(&self, pos: PosInDocument) -> (r: bool)
        ensures
            r == (self.top <= pos.0 && pos.0 - self.top < self.height && self.left <= pos.1
                && pos.1 - self.left < self.width),
    {
        let (row, col) = pos;
        self.top <= row && row - self.top < self.height as usize && self.left <= col && col
            - self.left < self.width as usize
    }

    /// Moves the scroll origin.
    pub fn scroll(&mut self, top: usize, left: usize)
        ensures
            final(self).top == top,
            final(self).left == left,
            final(self).width == old(self).width,
            final(self).height == old(self).height,
    {
        self.left = left;
        self.top = top;
    }

    /// Adopts a new terminal size, keeping the last screen row for the
    /// status bar.
    pub fn resize(&mut self, width: u16, height: u16)
        requires
            height >= 1,
        ensures
            final(self).width == width,
            final(self).height == height - 1,
            final(self).top == old(self).top,
            final(self).left == old(self).left,
    {
        self.width = width;
        self.height = height - 1;
    }

    /// The document position `pos` as a 1-based screen position.
    pub fn to_relative(&self, pos: PosInDocument) -> (r: PosOnScreen)
        requires
            self.top <= pos.0 && pos.0 - self.top < self.height,
            self.left <= pos.1 && pos.1 - self.left < self.width,
        ensures
            r.0 as int == pos.0 - self.top + 1,
            r.1 as int == pos.1 - self.left + 1,
    {
        let (row, col) = pos;
        (((row - self.top) as u16) + 1, ((col - self.left) as u16) + 1)
    }

    /// The 1-based screen position `pos` as a document position, clamped at
    /// the machine limits.
    pub fn to_absolute(&self, pos: PosOnScreen) -> (r: PosInDocument)
        ensures
            r.0 as int == abs_coord(self.top as int, pos.0 as int),
            r.1 as int == abs_coord(self.left as int, pos.1 as int),
    {
        let (row, col) = pos;
        (
            self.top.saturating_add(row as usize).saturating_sub(1),
            self.left.saturating_add(col as usize).saturating_sub(1),
        )
    }

    /// The minimal scroll that brings `pos` into view, axis by axis; `None`
    /// when `pos` is already visible from the current origin.
    pub fn scroll_into_view(&self, pos: PosInDocument) -> (r: ScrollCommand)
        ensures
            ({
                let t = scroll_into(pos.0 as int, self.top as int, self.height as int);
                let l = scroll_into(pos.1 as int, self.left as int, self.width as int);
                &&& (r is None <==> (t, l) == (self.top as int, self.left as int))
                &&& match r {
                    Some(p) => p.0 as int == t && p.1 as int == l && (p.0 != self.top || p.1
                        != self.left),
                    None => true,
                }
            }),
    {
        let (row, col) = pos;
        let new_top = Self::scroll_axis(row, self.top, self.height);
        let new_left = Self::scroll_axis(col, self.left, self.width);
        if new_top == self.top && new_left == self.left {
            None
        } else {
            Some((new_top, new_left))
        }
    }

    fn scroll_axis(pos: usize, start: usize, size: u16) -> (r: usize)
        ensures
            r as int == scroll_into(pos as int, start as int, size as int),
    {
        if pos < start {
            pos
        } else if pos - start >= size as usize {
            (pos - size as usize).saturating_add(1)
        } else {
            start
        }
    }

    /// A scroll `n` rows up, clamped at the document start; `None` when the
    /// origin does not move.
    pub fn scroll_up(&self, content: &EditorContent, n: usize) -> (r: ScrollCommand)
        requires
            content.wf(),
        ensures
            self.scroll_vertical_ensures(
                content.rows(),
                self.top as int - min_int(n as int, self.top as int),
                r,
            ),
    {
        let step = if n < self.top {
            n
        } else {
            self.top
        };
        self.scroll_to(content, self.top - step)
    }

    /// A scroll `n` rows down, clamped at the last document row; `None`
    /// when the origin does not move.
    pub fn scroll_down(&self, content: &EditorContent, n: usize) -> (r: ScrollCommand)
        requires
            content.wf(),
            self.top as int <= content.rows().len() - 1,
        ensures
            self.scroll_vertical_ensures(
                content.rows(),
                self.top as int + min_int(n as int, content.rows().len() - 1 - self.top as int),
                r,
            ),
    {
        let last = content.last_line_row();
        let dist = last - self.top;
        let step = if n < dist {
            n
        } else {
            dist
        };
        self.scroll_to(content, self.top + step)
    }

    /// What a vertical scroll guarantees: the new origin row is the target
    /// clamped at the last document row, the origin column is kept.
    pub open spec fn scroll_vertical_ensures(
        &self,
        doc: Seq<Seq<Seq<char>>>,
        target_top: int,
        r: ScrollCommand,
    ) -> bool {
        let t = min_int(target_top, doc.len() - 1);
        &&& (r is None <==> t == self.top as int)
        &&& match r {
            Some(p) => p.0 as int == t && p.1 == self.left && p.0 != self.top,
            None => true,
        }
    }

    fn scroll_to(&self, content: &EditorContent, scroll_top: usize) -> (r: ScrollCommand)
        requires
            content.wf(),
        ensures
            self.scroll_vertical_ensures(content.rows(), scroll_top as int, r),
    {
        let last = content.last_line_row();
        let new_top = if scroll_top < last {
            scroll_top
        } else {
            last
        };
        if new_top == self.top {
            None
        } else {
            Some((new_top, self.left))
        }
    }
}

} // verus!
