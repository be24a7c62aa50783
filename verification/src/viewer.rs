//! The pager viewport controller: a cursor, a horizontal offset and the top
//! visible line, kept consistent under discrete navigation commands.

use vstd::prelude::*;
use crate::document::Document;

verus! {

/// The viewport state as mathematical integers.
pub ghost struct ViewV {
    pub cursor: int,
    pub top: int,
    pub left: int,
}

/// The index of the last navigable line: zero for an empty document.
pub open spec fn spec_max_line(total: int) -> int {
    if total == 0 {
        0
    } else {
        total - 1
    }
}

/// One cursor-moving command, before the scroll step. Unknown commands leave
/// the state unchanged.
pub open spec fn spec_move(v: ViewV, c: char, total: int, page: int) -> ViewV {
    let maxl = spec_max_line(total);
    let half = page / 2;
    if c == 'j' {
        ViewV { cursor: if v.cursor + 1 <= maxl { v.cursor + 1 } else { maxl }, ..v }
    } else if c == 'k' {
        ViewV { cursor: if v.cursor - 1 >= 0 { v.cursor - 1 } else { 0 }, ..v }
    } else if c == 'l' {
        ViewV { left: if v.left == usize::MAX { v.left } else { v.left + 1 }, ..v }
    } else if c == 'h' {
        ViewV { left: if v.left - 1 >= 0 { v.left - 1 } else { 0 }, ..v }
    } else if c == 'd' {
        ViewV { cursor: if v.cursor + half <= maxl { v.cursor + half } else { maxl }, ..v }
    } else if c == 'u' {
        ViewV { cursor: if v.cursor - half >= 0 { v.cursor - half } else { 0 }, ..v }
    } else if c == 'g' {
        ViewV { cursor: 0, left: 0, ..v }
    } else if c == 'G' {
        ViewV { cursor: maxl, ..v }
    } else {
        v
    }
}

/// The scroll step: moves the top of the window by the least amount that
/// brings the cursor back inside the visible rows.
pub open spec fn spec_scroll(v: ViewV, page: int) -> ViewV {
    if v.cursor < v.top {
        ViewV { top: v.cursor, ..v }
    } else if v.cursor >= v.top + page {
        let back = if page >= 1 {
            page - 1
        } else {
            0
        };
        ViewV { top: if v.cursor - back >= 0 { v.cursor - back } else { 0 }, ..v }
    } else {
        v
    }
}

/// One navigation command followed by the scroll step.
pub open spec fn spec_handle_key(v: ViewV, c: char, total: int, page: int) -> ViewV {
    spec_scroll(spec_move(v, c, total, page), page)
}

/// The cursor is on a line of the document (or on line zero when the
/// document is empty) and nothing is negative.
pub open spec fn cursor_in_doc(v: ViewV, total: int) -> bool {
    &&& 0 <= v.cursor <= spec_max_line(total)
    &&& 0 <= v.top
    &&& 0 <= v.left
}

/// The full viewport invariant: the cursor lies on a document line and
/// within the visible window.
pub open spec fn viewport_inv(v: ViewV, total: int, page: int) -> bool {
    &&& cursor_in_doc(v, total)
    &&& v.top <= v.cursor < v.top + page
}

/// A keyboard-driven pager over a finished document.
#[derive(Debug)]
pub struct Viewer {
    pub doc: Document,
    pub filename: String,
    pub top_line: usize,
    pub left_col: usize,
    pub cursor_line: usize,
}

impl Viewer {
    /// The viewport state of this viewer.
    pub open spec fn view_state(&self) -> ViewV {
        ViewV { cursor: self.cursor_line as int, top: self.top_line as int, left: self.left_col as int }
    }

    /// Builds a viewer at the top of the document.
    pub fn new(doc: Document, filename: String) -> (r: Viewer)
        ensures
            r.doc == doc,
            r.filename == filename,
            r.view_state() == (ViewV { cursor: 0, top: 0, left: 0 }),
    {
        Viewer { doc, filename, top_line: 0, left_col: 0, cursor_line: 0 }
    }

    /// Scrolls the window by the least amount that re-includes the cursor,
    /// given the number of visible content rows.
    pub fn scroll_to_cursor(&mut self, visible_rows: usize)
        ensures
            final(self).view_state() == spec_scroll(old(self).view_state(), visible_rows as int),
            final(self).doc == old(self).doc,
            final(self).filename == old(self).filename,
    {
        let page = visible_rows;
        if self.cursor_line < self.top_line {
            self.top_line = self.cursor_line;
        } else if self.cursor_line - self.top_line >= page {
            self.top_line = self.cursor_line.saturating_sub(page.saturating_sub(1));
        }
    }

    /// Applies one navigation command, then scrolls to keep the cursor
    /// visible. Commands move the cursor by one line (`j`, `k`) or half a
    /// page (`d`, `u`), jump to the first (`g`) or last (`G`) line, or move
    /// the horizontal offset (`h`, `l`); anything else is ignored.
    pub fn handle_key(&mut self, code: char, visible_rows: usize)
        ensures
            final(self).view_state() == spec_handle_key(
                old(self).view_state(),
                code,
                old(self).doc@.len() as int,
                visible_rows as int,
            ),
            final(self).doc == old(self).doc,
            final(self).filename == old(self).filename,
            visible_rows >= 1 && cursor_in_doc(
                old(self).view_state(),
                old(self).doc@.len() as int,
            ) ==> viewport_inv(
                final(self).view_state(),
                old(self).doc@.len() as int,
                visible_rows as int,
            ),
    {
        proof {
            if visible_rows >= 1 && cursor_in_doc(
                old(self).view_state(),
                old(self).doc@.len() as int,
            ) {
                lemma_handle_key_inv(
                    old(self).view_state(),
                    code,
                    old(self).doc@.len() as int,
                    visible_rows as int,
                );
            }
        }
        let page = visible_rows;
        let max_line = self.doc.len().saturating_sub(1);
        if code == 'j' {
            self.cursor_line = if self.cursor_line < max_line {
                self.cursor_line + 1
            } else {
                max_line
            };
        } else if code == 'k' {
            self.cursor_line = self.cursor_line.saturating_sub(1);
        } else if code == 'l' {
            self.left_col = self.left_col.saturating_add(1);
        } else if code == 'h' {
            self.left_col = self.left_col.saturating_sub(1);
        } else if code == 'd' {
            let half = page / 2;
            self.cursor_line = if self.cursor_line.saturating_add(half) < max_line {
                self.cursor_line + half
            } else {
                max_line
            };
        } else if code == 'u' {
            self.cursor_line = self.cursor_line.saturating_sub(page / 2);
        } else if code == 'g' {
            self.cursor_line = 0;
            self.left_col = 0;
        } else if code == 'G' {
            self.cursor_line = max_line;
        }
        self.scroll_to_cursor(visible_rows);
    }
}

/// One command re-establishes the full viewport invariant from any state
/// whose cursor lies on a document line, as long as at least one row is
/// visible.
pub proof fn lemma_handle_key_inv(v: ViewV, c: char, total: int, page: int)
    requires
        page >= 1,
        total >= 0,
        cursor_in_doc(v, total),
    ensures
        viewport_inv(spec_handle_key(v, c, total, page), total, page),
        cursor_in_doc(spec_handle_key(v, c, total, page), total),
{
}

/// The state after running a whole command sequence from the initial
/// viewport (cursor, top and offset all zero).
pub open spec fn spec_run(cmds: Seq<char>, total: int, page: int) -> ViewV
    decreases cmds.len(),
{
    if cmds.len() == 0 {
        ViewV { cursor: 0, top: 0, left: 0 }
    } else {
        spec_handle_key(spec_run(cmds.drop_last(), total, page), cmds.last(), total, page)
    }
}

/// After any finite sequence of navigation commands the cursor lies on a
/// document line and within the visible window: the viewport invariant
/// holds.
pub proof fn lemma_navigation_invariant(cmds: Seq<char>, total: int, page: int)
    requires
        page >= 1,
        total >= 0,
    ensures
        viewport_inv(spec_run(cmds, total, page), total, page),
    decreases cmds.len(),
{
    if cmds.len() == 0 {
    } else {
        lemma_navigation_invariant(cmds.drop_last(), total, page);
        lemma_handle_key_inv(spec_run(cmds.drop_last(), total, page), cmds.last(), total, page);
    }
}

} // verus!

