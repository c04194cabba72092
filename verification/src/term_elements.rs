//! Rectangular regions of the terminal and the widgets drawn in them.
use vstd::prelude::*;

use crate::ansi::{self, move_to_seq, set_bg_seq, set_fg_seq, bold_seq, styled_seq};
use crate::errors::Result;
use crate::edit_buffer::{self, Buffer, line_text, expand_tabs, count_lines};
use crate::event::{Event, KeyCode};
use crate::text::{self, repeat_seq, width_sum};
use crate::util::{self, CalDate, date_text};

verus! {

/// A rectangle of the terminal, with 1-based `col` and `row` of its top
/// left cell, and the window it shows of an editing buffer: `ed_origin` is
/// the buffer position shown in its top left cell and `vp_cursor_off` the
/// cursor's offset from that cell.
#[derive(Clone, Copy, Debug)]
pub struct Viewport {
    col: u16,
    row: u16,
    height: u16,
    width: u16,
    ed_col: usize,
    ed_row: usize,
    off_col: u16,
    off_row: u16,
    scroll_off: u16,
}

impl Default for Viewport {
    fn default() -> (r: Viewport)
        ensures
            r.sp_col() == 0 && r.sp_row() == 0 && r.sp_height() == 0 && r.sp_width() == 0,
            r.sp_ed_origin() == (0usize, 0usize),
            r.sp_cursor_off() == (0u16, 0u16),
            r.sp_scroll_off() == 0,
    {
        Viewport::new(0, 0, 0, 0)
    }
}

impl Viewport {
    pub closed spec fn sp_col(&self) -> u16 {
        self.col
    }

    pub closed spec fn sp_row(&self) -> u16 {
        self.row
    }

    pub closed spec fn sp_height(&self) -> u16 {
        self.height
    }

    pub closed spec fn sp_width(&self) -> u16 {
        self.width
    }

    pub closed spec fn sp_ed_origin(&self) -> (usize, usize) {
        (self.ed_col, self.ed_row)
    }

    pub closed spec fn sp_cursor_off(&self) -> (u16, u16) {
        (self.off_col, self.off_row)
    }

    pub closed spec fn sp_scroll_off(&self) -> u16 {
        self.scroll_off
    }

    /// A viewport at (`col`, `row`) of `height` rows and `width` columns,
    /// showing the buffer from its start with the cursor in its top left
    /// cell.
    pub fn new(col: u16, row: u16, height: u16, width: u16) -> (r: Viewport)
        ensures
            r.sp_col() == col,
            r.sp_row() == row,
            r.sp_height() == height,
            r.sp_width() == width,
            r.sp_ed_origin() == (0usize, 0usize),
            r.sp_cursor_off() == (0u16, 0u16),
            r.sp_scroll_off() == 0,
    {
        Viewport { col, row, height, width, ed_col: 0, ed_row: 0, off_col: 0, off_row: 0, scroll_off: 0 }
    }

    /// Sets the number of rows kept between the cursor and the top and
    /// bottom edges.
    pub fn set_scroll_off(&mut self, scroll_off: u16) -> (r: &mut Self)
        ensures
            r.sp_scroll_off() == scroll_off,
            r.sp_col() == old(self).sp_col(),
            r.sp_row() == old(self).sp_row(),
            r.sp_height() == old(self).sp_height(),
            r.sp_width() == old(self).sp_width(),
            r.sp_ed_origin() == old(self).sp_ed_origin(),
            r.sp_cursor_off() == old(self).sp_cursor_off(),
            *final(self) == *final(r),
    {
        self.scroll_off = scroll_off;
        self
    }

    /// The viewport moved by the given offsets. The offsets are added to the
    /// position read as `i16`, and the sum is read back as `u16`.
    pub fn move_by(self, col_off: i16, row_off: i16) -> (r: Self)
        requires
            i16::MIN <= (self.sp_col() as i16) + col_off <= i16::MAX,
            i16::MIN <= (self.sp_row() as i16) + row_off <= i16::MAX,
        ensures
            r.sp_col() == ((self.sp_col() as i16) + col_off) as u16,
            r.sp_row() == ((self.sp_row() as i16) + row_off) as u16,
            r.sp_height() == self.sp_height(),
            r.sp_width() == self.sp_width(),
            r.sp_ed_origin() == self.sp_ed_origin(),
            r.sp_cursor_off() == self.sp_cursor_off(),
            r.sp_scroll_off() == self.sp_scroll_off(),
    {
        let mut s = self;
        s.col = ((s.col as i16) + col_off) as u16;
        s.row = ((s.row as i16) + row_off) as u16;
        s
    }

    /// The viewport with a new height and width.
    pub fn resize_to(self, height: u16, width: u16) -> (r: Self)
        ensures
            r.sp_height() == height,
            r.sp_width() == width,
            r.sp_col() == self.sp_col(),
            r.sp_row() == self.sp_row(),
            r.sp_ed_origin() == self.sp_ed_origin(),
            r.sp_cursor_off() == self.sp_cursor_off(),
            r.sp_scroll_off() == self.sp_scroll_off(),
    {
        let mut s = self;
        s.height = height;
        s.width = width;
        s
    }

    /// The viewport as text: `Viewport<col:.. row:.. height:.. width:..>`.
    pub fn to_string(&self) -> (r: String)
        ensures
            r@ == "Viewport<col:"@ + text::dec_seq(self.sp_col() as nat) + " row:"@ + text::dec_seq(
                self.sp_row() as nat,
            ) + " height:"@ + text::dec_seq(self.sp_height() as nat) + " width:"@ + text::dec_seq(
                self.sp_width() as nat,
            ) + ">"@,
    {
        let mut v = text::str_chars("Viewport<col:");
        text::push_dec(&mut v, self.col as u128);
        v.append(&mut text::str_chars(" row:"));
        text::push_dec(&mut v, self.row as u128);
        v.append(&mut text::str_chars(" height:"));
        text::push_dec(&mut v, self.height as u128);
        v.append(&mut text::str_chars(" width:"));
        text::push_dec(&mut v, self.width as u128);
        v.append(&mut text::str_chars(">"));
        text::string_from_chars(v.as_slice())
    }

    /// The columns that the viewport covers.
    pub fn col_range(&self) -> (r: core::ops::Range<u16>)
        requires
            self.sp_col() + self.sp_width() <= u16::MAX,
        ensures
            r.start == self.sp_col(),
            r.end == self.sp_col() + self.sp_width(),
    {
        self.col..(self.col + self.width)
    }

    /// The rows that the viewport covers.
    pub fn row_range(&self) -> (r: core::ops::Range<u16>)
        requires
            self.sp_row() + self.sp_height() <= u16::MAX,
        ensures
            r.start == self.sp_row(),
            r.end == self.sp_row() + self.sp_height(),
    {
        self.row..(self.row + self.height)
    }

    /// Whether the cell (`col`, `row`) lies in the viewport.
    pub open spec fn contains_spec(&self, col: u16, row: u16) -> bool {
        &&& self.sp_col() <= col < self.sp_col() + self.sp_width()
        &&& self.sp_row() <= row < self.sp_row() + self.sp_height()
    }

    /// Whether the cell (`col`, `row`) lies in the viewport.
    pub fn contain_cell(&self, col: u16, row: u16) -> (r: bool)
        requires
            self.sp_col() + self.sp_width() <= u16::MAX,
            self.sp_row() + self.sp_height() <= u16::MAX,
        ensures
            r == self.contains_spec(col, row),
    {
        let cr = self.col_range();
        let rr = self.row_range();
        cr.start <= col && col < cr.end && rr.start <= row && row < rr.end
    }

    /// The top left cell.
    pub fn to_origin(&self) -> (r: (u16, u16))
        ensures
            r == (self.sp_col(), self.sp_row()),
    {
        (self.col, self.row)
    }

    /// The buffer position shown in the top left cell.
    pub fn to_ed_origin(&self) -> (r: (usize, usize))
        ensures
            r == self.sp_ed_origin(),
    {
        (self.ed_col, self.ed_row)
    }

    /// The height and the width.
    pub fn to_size(&self) -> (r: (u16, u16))
        ensures
            r == (self.sp_height(), self.sp_width()),
    {
        (self.height, self.width)
    }

    /// The first row.
    pub fn to_top(&self) -> (r: u16)
        ensures
            r == self.sp_row(),
    {
        self.row
    }

    /// The last column.
    pub fn to_right(&self) -> (r: u16)
        requires
            1 <= self.sp_col() + self.sp_width() <= u16::MAX,
        ensures
            r == self.sp_col() + self.sp_width() - 1,
    {
        self.col + self.width - 1
    }

    /// The last row.
    pub fn to_bottom(&self) -> (r: u16)
        requires
            1 <= self.sp_row() + self.sp_height() <= u16::MAX,
        ensures
            r == self.sp_row() + self.sp_height() - 1,
    {
        self.row + self.height - 1
    }

    /// The first column.
    pub fn to_left(&self) -> (r: u16)
        ensures
            r == self.sp_col(),
    {
        self.col
    }

    /// The cursor's offset from the top left cell.
    pub fn to_cursor_off(&self) -> (r: (u16, u16))
        ensures
            r == self.sp_cursor_off(),
    {
        (self.off_col, self.off_row)
    }

    /// The cell of the cursor.
    pub fn to_cursor(&self) -> (r: (u16, u16))
        requires
            self.sp_col() + self.sp_cursor_off().0 <= u16::MAX,
            self.sp_row() + self.sp_cursor_off().1 <= u16::MAX,
        ensures
            r == ((self.sp_col() + self.sp_cursor_off().0) as u16, (self.sp_row()
                + self.sp_cursor_off().1) as u16),
    {
        let (col, row) = self.to_origin();
        let (coff, roff) = self.to_cursor_off();
        (col + coff, row + roff)
    }

    /// The buffer position under the cursor when the top left cell shows
    /// `ed_origin`.
    fn to_ed_cursor(&self, ed_origin: (usize, usize)) -> (r: (usize, usize))
        requires
            ed_origin.0 + self.sp_cursor_off().0 <= usize::MAX,
            ed_origin.1 + self.sp_cursor_off().1 <= usize::MAX,
        ensures
            r == ((ed_origin.0 + self.sp_cursor_off().0) as usize, (ed_origin.1
                + self.sp_cursor_off().1) as usize),
    {
        let col = ed_origin.0 + (self.off_col as usize);
        let row = ed_origin.1 + (self.off_row as usize);
        (col, row)
    }

    // -----------------------------------------------------------------
    // Following the buffer's cursor.

    /// The column on the screen that the cursor would move to if the
    /// viewport followed the buffer cursor `ed_cursor` without scrolling.
    pub open spec fn follow_col(&self, ed_cursor: (usize, usize)) -> int {
        self.sp_col() + self.sp_cursor_off().0 + (ed_cursor.0 - (self.sp_ed_origin().0
            + self.sp_cursor_off().0))
    }

    /// The row on the screen that the cursor would move to if the viewport
    /// followed the buffer cursor `ed_cursor` without scrolling.
    pub open spec fn follow_row(&self, ed_cursor: (usize, usize)) -> int {
        self.sp_row() + self.sp_cursor_off().1 + (ed_cursor.1 - (self.sp_ed_origin().1
            + self.sp_cursor_off().1))
    }

    /// When `apply_ed_cursor` runs to its end: the arithmetic that it
    /// does stays within its integer types.
    pub open spec fn can_follow(&self, ed_cursor: (usize, usize)) -> bool {
        let ccol = self.follow_col(ed_cursor);
        let crow = self.follow_row(ed_cursor);
        let right = self.sp_col() + self.sp_width() - 1;
        let top = self.sp_row() + self.sp_scroll_off();
        let bottom = self.sp_row() + self.sp_height() - 1 - self.sp_scroll_off();
        &&& self.sp_ed_origin().0 + self.sp_cursor_off().0 <= isize::MAX
        &&& self.sp_ed_origin().1 + self.sp_cursor_off().1 <= isize::MAX
        &&& ed_cursor.0 <= isize::MAX
        &&& ed_cursor.1 <= isize::MAX
        &&& isize::MIN <= ccol <= isize::MAX
        &&& isize::MIN <= crow <= isize::MAX
        &&& self.sp_col() + self.sp_cursor_off().0 <= u16::MAX
        &&& self.sp_row() + self.sp_cursor_off().1 <= u16::MAX
        &&& 1 <= self.sp_col() + self.sp_width() <= u16::MAX
        &&& 1 <= self.sp_row() + self.sp_height() <= u16::MAX
        &&& top <= u16::MAX
        &&& bottom >= 0
        &&& (ccol > right && !(ccol < self.sp_col()) ==> self.sp_width() >= 1 && ed_cursor.0
            >= self.sp_width())
        &&& (crow > bottom && !(crow < top) ==> self.sp_height() >= 1 && ed_cursor.1
            >= self.sp_height())
    }

    /// The new (screen offset, buffer origin) of the column: the cursor
    /// follows the buffer, and where it would leave the viewport the
    /// viewport scrolls so that it sits at the left or the right edge.
    pub open spec fn followed_col(&self, ed_cursor: (usize, usize)) -> (u16, usize) {
        let ccol = self.follow_col(ed_cursor);
        if ccol < self.sp_col() {
            (0u16, ed_cursor.0)
        } else if ccol > self.sp_col() + self.sp_width() - 1 {
            ((self.sp_width() - 1) as u16, (ed_cursor.0 - self.sp_width() + 1) as usize)
        } else {
            ((ccol - self.sp_col()) as u16, self.sp_ed_origin().0)
        }
    }

    /// The new (screen offset, buffer origin) of the row, keeping
    /// `scroll_off` rows from the top and the bottom edges.
    pub open spec fn followed_row(&self, ed_cursor: (usize, usize)) -> (u16, usize) {
        let crow = self.follow_row(ed_cursor);
        let top = self.sp_row() + self.sp_scroll_off();
        let bottom = self.sp_row() + self.sp_height() - 1 - self.sp_scroll_off();
        if crow < top {
            (0u16, ed_cursor.1)
        } else if crow > bottom {
            ((self.sp_height() - 1) as u16, (ed_cursor.1 - self.sp_height() + 1) as usize)
        } else {
            ((crow - self.sp_row()) as u16, self.sp_ed_origin().1)
        }
    }

    /// The viewport after following the buffer cursor `ed_cursor`: the
    /// cursor offset and the buffer origin are those of `followed_col` and
    /// `followed_row`, and everything else is kept.
    pub closed spec fn followed(self, ed_cursor: (usize, usize)) -> Viewport {
        Viewport {
            col: self.col,
            row: self.row,
            height: self.height,
            width: self.width,
            ed_col: self.followed_col(ed_cursor).1,
            ed_row: self.followed_row(ed_cursor).1,
            off_col: self.followed_col(ed_cursor).0,
            off_row: self.followed_row(ed_cursor).0,
            scroll_off: self.scroll_off,
        }
    }

    /// Whether `apply_ed_cursor` can follow the buffer cursor `ed_cursor`.
    pub fn can_follow_cursor(&self, ed_cursor: (usize, usize)) -> (r: bool)
        ensures
            r == self.can_follow(ed_cursor),
    {
        let col = self.col as i128;
        let row = self.row as i128;
        let width = self.width as i128;
        let height = self.height as i128;
        let oc = self.off_col as i128;
        let orow = self.off_row as i128;
        let ec = self.ed_col as i128;
        let er = self.ed_row as i128;
        let c0 = ed_cursor.0 as i128;
        let c1 = ed_cursor.1 as i128;
        let so = self.scroll_off as i128;
        let imax = isize::MAX as i128;
        let imin = isize::MIN as i128;
        let umax = u16::MAX as i128;
        let ccol = col + oc + (c0 - (ec + oc));
        let crow = row + orow + (c1 - (er + orow));
        let right = col + width - 1;
        let top = row + so;
        let bottom = row + height - 1 - so;
        &&& ec + oc <= imax
        &&& er + orow <= imax
        &&& c0 <= imax
        &&& c1 <= imax
        &&& imin <= ccol && ccol <= imax
        &&& imin <= crow && crow <= imax
        &&& col + oc <= umax
        &&& row + orow <= umax
        &&& 1 <= col + width && col + width <= umax
        &&& 1 <= row + height && row + height <= umax
        &&& top <= umax
        &&& bottom >= 0
        &&& (!(ccol > right && !(ccol < col)) || (width >= 1 && c0 >= width))
        &&& (!(crow > bottom && !(crow < top)) || (height >= 1 && c1 >= height))
    }

    /// Whether the viewport's cursor is a cell of the terminal.
    pub fn cursor_fits(&self) -> (r: bool)
        ensures
            r == cursor_fits(*self),
    {
        (self.col as u32) + (self.off_col as u32) <= 65535 && (self.row as u32) + (
        self.off_row as u32) <= 65535
    }

    /// Moves the cursor to follow the buffer cursor `ed_cursor`, scrolling
    /// the viewport where the cursor would leave it.
    pub fn apply_ed_cursor(&mut self, ed_cursor: (usize, usize))
        requires
            old(self).can_follow(ed_cursor),
        ensures
            final(self).sp_cursor_off() == (old(self).followed_col(ed_cursor).0, old(
                self,
            ).followed_row(ed_cursor).0),
            final(self).sp_ed_origin() == (old(self).followed_col(ed_cursor).1, old(
                self,
            ).followed_row(ed_cursor).1),
            final(self).sp_col() == old(self).sp_col(),
            final(self).sp_row() == old(self).sp_row(),
            final(self).sp_height() == old(self).sp_height(),
            final(self).sp_width() == old(self).sp_width(),
            final(self).sp_scroll_off() == old(self).sp_scroll_off(),
            *final(self) == old(self).followed(ed_cursor),
    {
        let (old_c, old_r) = self.to_ed_cursor((self.ed_col, self.ed_row));
        let (new_c, new_r) = ed_cursor;
        let cdiff: isize = (new_c as isize) - (old_c as isize);
        let rdiff: isize = (new_r as isize) - (old_r as isize);

        let ccol: isize = ((self.col + self.off_col) as isize) + cdiff;
        let crow: isize = ((self.row + self.off_row) as isize) + rdiff;

        let top = (self.to_top() + self.scroll_off) as isize;
        let bottom = (self.to_bottom() - self.scroll_off) as isize;

        let (vp_col, ed_col): (u16, usize) = if ccol < (self.to_left() as isize) {
            (0, ed_cursor.0)
        } else if ccol > (self.to_right() as isize) {
            (self.width - 1, ed_cursor.0 - (self.width as usize) + 1)
        } else {
            let new_col: u16 = ccol as u16;
            (new_col - self.col, self.ed_col)
        };
        let (vp_row, ed_row): (u16, usize) = if crow < top {
            (0, ed_cursor.1)
        } else if crow > bottom {
            (self.height - 1, ed_cursor.1 - (self.height as usize) + 1)
        } else {
            let new_row: u16 = crow as u16;
            (new_row - self.row, self.ed_row)
        };

        self.ed_col = ed_col;
        self.ed_row = ed_row;
        self.off_col = vp_col;
        self.off_row = vp_row;
    }
}

/// Proof that following the buffer's cursor works: afterwards the
/// viewport's cursor points at the buffer's cursor, and stays within the
/// viewport.
pub proof fn lemma_follow_tracks_cursor(vp: Viewport, ed_cursor: (usize, usize))
    requires
        vp.can_follow(ed_cursor),
    ensures
        vp.followed_col(ed_cursor).1 + vp.followed_col(ed_cursor).0 == ed_cursor.0,
        vp.followed_row(ed_cursor).1 + vp.followed_row(ed_cursor).0 == ed_cursor.1,
        vp.sp_width() >= 1 ==> vp.followed_col(ed_cursor).0 < vp.sp_width(),
        vp.sp_height() >= 1 ==> vp.followed_row(ed_cursor).0 < vp.sp_height(),
{
}

/// The viewport after following each buffer cursor of `cursors` in turn.
pub open spec fn follow_all(vp: Viewport, cursors: Seq<(usize, usize)>) -> Viewport
    decreases cursors.len(),
{
    if cursors.len() == 0 {
        vp
    } else {
        follow_all(vp.followed(cursors[0]), cursors.drop_first())
    }
}

/// Every step of following `cursors` in turn, from `vp`, meets the
/// precondition of `apply_ed_cursor`.
pub open spec fn can_follow_all(vp: Viewport, cursors: Seq<(usize, usize)>) -> bool
    decreases cursors.len(),
{
    if cursors.len() == 0 {
        true
    } else {
        vp.can_follow(cursors[0]) && can_follow_all(vp.followed(cursors[0]), cursors.drop_first())
    }
}

/// The viewport's cursor lies within the viewport.
pub open spec fn cursor_inside(vp: Viewport) -> bool {
    vp.sp_cursor_off().0 < vp.sp_width() && vp.sp_cursor_off().1 < vp.sp_height()
}

/// Proof that the screen cursor never leaves the viewport: from a viewport
/// of at least one row and one column whose cells are cells of the
/// terminal and whose cursor lies within it, following any number of
/// buffer cursors keeps the position and the size, and leaves the cursor
/// on a cell of the viewport.
pub proof fn lemma_cursor_stays_inside(vp: Viewport, cursors: Seq<(usize, usize)>)
    requires
        vp.sp_width() >= 1,
        vp.sp_height() >= 1,
        vp.sp_col() + vp.sp_width() <= u16::MAX,
        vp.sp_row() + vp.sp_height() <= u16::MAX,
        cursor_inside(vp),
        can_follow_all(vp, cursors),
    ensures
        follow_all(vp, cursors).sp_col() == vp.sp_col(),
        follow_all(vp, cursors).sp_row() == vp.sp_row(),
        follow_all(vp, cursors).sp_width() == vp.sp_width(),
        follow_all(vp, cursors).sp_height() == vp.sp_height(),
        cursor_inside(follow_all(vp, cursors)),
        cursor_fits(follow_all(vp, cursors)),
        follow_all(vp, cursors).contains_spec(
            cursor_cell_of(follow_all(vp, cursors)).0,
            cursor_cell_of(follow_all(vp, cursors)).1,
        ),
    decreases cursors.len(),
{
    if cursors.len() > 0 {
        let next = vp.followed(cursors[0]);
        lemma_follow_tracks_cursor(vp, cursors[0]);
        assert(next.sp_col() == vp.sp_col() && next.sp_row() == vp.sp_row());
        assert(next.sp_width() == vp.sp_width() && next.sp_height() == vp.sp_height());
        assert(next.sp_cursor_off() == (
            vp.followed_col(cursors[0]).0,
            vp.followed_row(cursors[0]).0,
        ));
        lemma_cursor_stays_inside(next, cursors.drop_first());
    }
}

// ---------------------------------------------------------------------
// Colours (entries of the 256-colour palette).

pub const BG_LAYER: u8 = 235;
pub const BG_EDIT: u8 = 232;
pub const BG_BUTTON: u8 = 243;
pub const BG_BUTTON_HL: u8 = 255;

pub const FG_PERIOD: u8 = 27;
pub const FG_DATE: u8 = 33;
pub const FG_TITLE: u8 = 6;
pub const FG_BORDER: u8 = 243;
pub const FG_BORDER_HL: u8 = 255;
pub const FG_EDIT_INLINE: u8 = 59;
pub const FG_EDIT: u8 = 15;
pub const FG_SECTION: u8 = 11;
pub const FG_FIELD: u8 = 159;
pub const FG_MANDATORY: u8 = 160;
pub const FG_STATUS: u8 = 15;
pub const FG_BUTTON: u8 = 255;
pub const FG_BUTTON_HL: u8 = 232;

/// The viewport's top left cell can be addressed: both coordinates are
/// at least 1.
pub open spec fn has_origin(vp: Viewport) -> bool {
    vp.sp_col() >= 1 && vp.sp_row() >= 1
}

/// Moves to the cell just before the viewport's top left (crossterm counts
/// from 0, the viewport from 1).
pub open spec fn move_to_origin(vp: Viewport) -> Seq<char> {
    move_to_seq((vp.sp_col() - 1) as u16, (vp.sp_row() - 1) as u16)
}

/// Whether an element is drawn highlighted.
#[derive(Clone, Copy, Debug, PartialEq, Eq, Structural)]
pub enum RenderType {
    Normal,
    Highlt,
}

/// Whether a focusable element is to be drawn, and how it will be drawn
/// next: it is drawn when it gains or loses the highlight, or when forced.
pub open spec fn render_step(focus: bool, rt: RenderType, force: bool) -> (RenderType, bool) {
    if focus && rt == RenderType::Normal {
        (RenderType::Highlt, true)
    } else if !focus && rt == RenderType::Highlt {
        (RenderType::Normal, true)
    } else {
        (rt, force)
    }
}

fn render_step_exec(focus: bool, rt: RenderType, force: bool) -> (r: (RenderType, bool))
    ensures
        r == render_step(focus, rt, force),
{
    if focus && rt == RenderType::Normal {
        (RenderType::Highlt, true)
    } else if !focus && rt == RenderType::Highlt {
        (RenderType::Normal, true)
    } else {
        (rt, force)
    }
}

// ---------------------------------------------------------------------
// Status line.

/// The line at the bottom of the screen that shows messages.
pub struct StatusLine {
    vp: Viewport,
    line: String,
}

impl StatusLine {
    pub closed spec fn sp_vp(&self) -> Viewport {
        self.vp
    }

    pub closed spec fn sp_line(&self) -> Seq<char> {
        self.line@
    }

    /// A blank status line, as wide as `vp`.
    pub fn new(vp: Viewport) -> (r: Result<StatusLine>)
        ensures
            r matches Ok(s) && s.sp_vp() == vp && s.sp_line() == repeat_seq(' ', vp.sp_width() as nat),
    {
        let (_, width) = vp.to_size();
        Ok(StatusLine { vp, line: text::repeat_char(' ', width as usize) })
    }

    /// An empty status line over the default viewport: at (0, 0), of no
    /// rows and no columns, showing the buffer from its start with no
    /// cursor offset and no scroll margin.
    pub fn default() -> (r: StatusLine)
        ensures
            r.sp_line() == Seq::<char>::empty(),
            r.sp_vp().sp_col() == 0 && r.sp_vp().sp_row() == 0,
            r.sp_vp().sp_width() == 0 && r.sp_vp().sp_height() == 0,
            r.sp_vp().sp_ed_origin() == (0usize, 0usize),
            r.sp_vp().sp_cursor_off() == (0u16, 0u16),
            r.sp_vp().sp_scroll_off() == 0,
    {
        StatusLine { vp: Viewport::default(), line: text::s_new() }
    }

    /// Shows `msg`, padded with spaces to the width of the line when it is
    /// shorter (counted in UTF-8 bytes).
    pub fn log(&mut self, msg: &str)
        ensures
            final(self).sp_vp() == old(self).sp_vp(),
            final(self).sp_line() == if msg.len() < old(self).sp_vp().sp_width() {
                msg@ + repeat_seq(
                    ' ',
                    (old(self).sp_vp().sp_width() - msg.len()) as nat,
                )
            } else {
                msg@
            },
    {
        let (_, width) = self.vp.to_size();
        let n = msg.len();
        self.line = text::str_to_string(msg);
        if n < (width as usize) {
            let pad = text::repeat_char(' ', (width as usize) - n);
            self.line.append(pad.as_str());
        }
    }

    /// `new` is this line, unchanged.
    pub open spec fn same(self, new: StatusLine) -> bool {
        new.sp_vp() == self.sp_vp() && new.sp_line() == self.sp_line()
    }

    /// Whether the line can be drawn: its viewport has an origin.
    pub open spec fn can_draw(self) -> bool {
        has_origin(self.sp_vp())
    }

    /// The line drawn at its place.
    pub open spec fn drawing(self) -> Seq<char> {
        move_to_origin(self.sp_vp()) + styled_seq(self.sp_line(), BG_LAYER, FG_STATUS)
    }

    /// Whether to draw the line: only when forced.
    pub fn refresh(&mut self, force: bool) -> (r: bool)
        ensures
            r == force,
            old(self).same(*final(self)),
    {
        force
    }

    /// The status line takes no focus: nothing changes.
    pub fn focus(&mut self)
        ensures
            old(self).same(*final(self)),
    {
    }

    /// Nothing changes.
    pub fn leave(&mut self)
        ensures
            old(self).same(*final(self)),
    {
    }

    /// Hands every event back.
    pub fn handle_event(&mut self, evnt: Event) -> (r: Result<Option<Event>>)
        ensures
            r == Ok::<Option<Event>, crate::errors::Error>(Some(evnt)),
            old(self).same(*final(self)),
    {
        Ok(Some(evnt))
    }

    /// The line drawn at its place.
    pub fn to_string(&self) -> (r: String)
        requires
            self.can_draw(),
        ensures
            r@ == self.drawing(),
    {
        let (col, row) = self.vp.to_origin();
        let mut s = ansi::move_to(col - 1, row - 1);
        let body = ansi::styled(self.line.as_str(), BG_LAYER, FG_STATUS);
        s.append(body.as_str());
        s
    }
}

// ---------------------------------------------------------------------
// Span.

/// A line of text in one colour.
pub struct Span {
    vp: Viewport,
    content: String,
    fg: u8,
}

impl Span {
    pub closed spec fn sp_vp(&self) -> Viewport {
        self.vp
    }

    pub closed spec fn sp_content(&self) -> Seq<char> {
        self.content@
    }

    pub closed spec fn sp_fg(&self) -> u8 {
        self.fg
    }

    /// `content` in the section colour.
    pub fn new(vp: Viewport, content: &str) -> (r: Result<Span>)
        ensures
            r matches Ok(s) && s.sp_vp() == vp && s.sp_content() == content@ && s.sp_fg()
                == FG_SECTION,
    {
        Ok(Span { vp, content: text::str_to_string(content), fg: FG_SECTION })
    }

    /// Sets the colour of the text.
    pub fn set_fg_color(&mut self, color: u8) -> (r: &mut Self)
        ensures
            r.sp_fg() == color,
            r.sp_vp() == old(self).sp_vp(),
            r.sp_content() == old(self).sp_content(),
            *final(self) == *final(r),
    {
        self.fg = color;
        self
    }

    /// Whether the span can be drawn: its viewport has an origin.
    pub open spec fn can_draw(self) -> bool {
        has_origin(self.sp_vp())
    }

    /// The span drawn at its place.
    pub open spec fn drawing(self) -> Seq<char> {
        move_to_origin(self.sp_vp()) + styled_seq(self.sp_content(), BG_LAYER, self.sp_fg())
    }

    /// Whether to draw the span: only when forced.
    pub fn refresh(&mut self, force: bool) -> (r: bool)
        ensures
            r == force,
            *final(self) == *old(self),
    {
        force
    }

    /// A span takes no focus: nothing changes.
    pub fn focus(&mut self)
        ensures
            *final(self) == *old(self),
    {
    }

    /// Nothing changes.
    pub fn leave(&mut self)
        ensures
            *final(self) == *old(self),
    {
    }

    /// Hands every event back.
    pub fn handle_event(&mut self, evnt: Event) -> (r: Result<Option<Event>>)
        ensures
            r == Ok::<Option<Event>, crate::errors::Error>(Some(evnt)),
            *final(self) == *old(self),
    {
        Ok(Some(evnt))
    }

    /// The span drawn at its place.
    pub fn to_string(&self) -> (r: String)
        requires
            self.can_draw(),
        ensures
            r@ == self.drawing(),
    {
        let (col, row) = self.vp.to_origin();
        let mut s = ansi::move_to(col - 1, row - 1);
        let body = ansi::styled(self.content.as_str(), BG_LAYER, self.fg);
        s.append(body.as_str());
        s
    }
}

// ---------------------------------------------------------------------
// Button.

/// What a button does when pressed.
#[derive(Clone, Copy, Debug, PartialEq, Eq, Structural)]
pub enum ButtonType {
    Submit,
    Reset,
    Cancel,
    Simple,
}

impl ButtonType {
    /// A simple button.
    pub fn default() -> (r: ButtonType)
        ensures
            r == ButtonType::Simple,
    {
        ButtonType::Simple
    }
}

/// The width of the text of a button, read as a `u16`.
pub open spec fn text_cols(t: Seq<char>) -> int {
    width_sum(t) as int % 65536
}

/// A button's text can be centred in its viewport.
pub open spec fn button_fits(vp: Viewport, t: Seq<char>) -> bool {
    has_origin(vp) && text_cols(t) <= vp.sp_width()
}

/// The button drawn in background `bg` and foreground `fg`: its text
/// centred in its width (the extra column, if any, on the right).
pub open spec fn button_seq(vp: Viewport, t: Seq<char>, bold: bool, bg: u8, fg: u8) -> Seq<char> {
    let free = vp.sp_width() - text_cols(t);
    let l = free / 2;
    move_to_origin(vp) + set_bg_seq(bg) + set_fg_seq(fg) + (if bold {
        bold_seq()
    } else {
        Seq::<char>::empty()
    }) + repeat_seq(' ', l as nat) + t + repeat_seq(' ', (free - l) as nat)
}

/// A button that hands back an event when Enter is pressed on it.
pub struct Button {
    vp: Viewport,
    text: String,
    btyp: ButtonType,
    bold: bool,
    focus: bool,
    tc_normal: String,
    tc_highlt: String,
    render_type: RenderType,
}

impl Button {
    pub closed spec fn sp_vp(&self) -> Viewport {
        self.vp
    }

    pub closed spec fn sp_text(&self) -> Seq<char> {
        self.text@
    }

    pub closed spec fn sp_btyp(&self) -> ButtonType {
        self.btyp
    }

    pub closed spec fn sp_bold(&self) -> bool {
        self.bold
    }

    pub closed spec fn sp_focus(&self) -> bool {
        self.focus
    }

    pub closed spec fn sp_render_type(&self) -> RenderType {
        self.render_type
    }

    pub closed spec fn sp_tc_normal(&self) -> Seq<char> {
        self.tc_normal@
    }

    pub closed spec fn sp_tc_highlt(&self) -> Seq<char> {
        self.tc_highlt@
    }

    /// The drawings kept for the two looks match the button.
    pub open spec fn caches_ok(&self) -> bool {
        &&& self.sp_tc_normal() == button_seq(
            self.sp_vp(),
            self.sp_text(),
            self.sp_bold(),
            BG_BUTTON,
            FG_BUTTON,
        )
        &&& self.sp_tc_highlt() == button_seq(
            self.sp_vp(),
            self.sp_text(),
            self.sp_bold(),
            BG_BUTTON_HL,
            FG_BUTTON_HL,
        )
    }

    /// A button showing `text` that does what `btyp` says.
    pub fn new(vp: Viewport, text: &str, btyp: ButtonType) -> (r: Result<Button>)
        requires
            button_fits(vp, text@),
        ensures
            r matches Ok(b) && {
                &&& b.sp_vp() == vp
                &&& b.sp_text() == text@
                &&& b.sp_btyp() == btyp
                &&& !b.sp_bold()
                &&& !b.sp_focus()
                &&& b.sp_render_type() == RenderType::Normal
                &&& b.caches_ok()
            },
    {
        let mut em = Button {
            vp,
            text: text::str_to_string(text),
            btyp,
            bold: false,
            focus: false,
            tc_normal: text::s_new(),
            tc_highlt: text::s_new(),
            render_type: RenderType::Normal,
        };
        em.tc_normal = em.make_term_cache(BG_BUTTON, FG_BUTTON);
        em.tc_highlt = em.make_term_cache(BG_BUTTON_HL, FG_BUTTON_HL);
        Ok(em)
    }

    /// Shows the text in bold, or not.
    pub fn set_bold(&mut self, bold: bool) -> (r: &mut Self)
        requires
            button_fits(old(self).sp_vp(), old(self).sp_text()),
        ensures
            r.sp_bold() == bold,
            r.caches_ok(),
            r.sp_vp() == old(self).sp_vp(),
            r.sp_text() == old(self).sp_text(),
            r.sp_btyp() == old(self).sp_btyp(),
            r.sp_focus() == old(self).sp_focus(),
            r.sp_render_type() == old(self).sp_render_type(),
            *final(self) == *final(r),
    {
        self.bold = bold;
        self.tc_normal = self.make_term_cache(BG_BUTTON, FG_BUTTON);
        self.tc_highlt = self.make_term_cache(BG_BUTTON_HL, FG_BUTTON_HL);
        self
    }

    /// `new` keeps all of this button but its focus and its highlight.
    pub open spec fn keeps(self, new: Button) -> bool {
        &&& new.sp_vp() == self.sp_vp()
        &&& new.sp_text() == self.sp_text()
        &&& new.sp_btyp() == self.sp_btyp()
        &&& new.sp_bold() == self.sp_bold()
        &&& new.sp_tc_normal() == self.sp_tc_normal()
        &&& new.sp_tc_highlt() == self.sp_tc_highlt()
    }

    /// What pressing a key hands back: Enter asks for what the button does,
    /// any other event goes back as it came.
    pub open spec fn pressed(self, evnt: Event) -> Option<Event> {
        if crate::event::key_code_of(evnt) == Some(KeyCode::Enter) {
            match self.sp_btyp() {
                ButtonType::Submit => Some(Event::Submit),
                ButtonType::Cancel => Some(Event::Cancel),
                _ => Some(Event::Reset),
            }
        } else {
            Some(evnt)
        }
    }

    /// Whether the button can take `evnt`: a simple button cannot be pressed.
    pub open spec fn can_take(self, evnt: Event) -> bool {
        crate::event::key_code_of(evnt) == Some(KeyCode::Enter) ==> self.sp_btyp() != ButtonType::Simple
    }

    /// Whether the button can take `evnt`.
    pub fn can_handle(&self, evnt: &Event) -> (r: bool)
        ensures
            r == self.can_take(*evnt),
    {
        match evnt.to_key_code() {
            Some(KeyCode::Enter) => self.btyp != ButtonType::Simple,
            _ => true,
        }
    }

    /// The button as it looks now.
    pub open spec fn drawing(self) -> Seq<char> {
        if self.sp_render_type() == RenderType::Normal {
            self.sp_tc_normal()
        } else {
            self.sp_tc_highlt()
        }
    }

    /// Whether to draw the button now (when it gains or loses the
    /// highlight, or when forced).
    pub fn refresh(&mut self, force: bool) -> (r: bool)
        ensures
            (final(self).sp_render_type(), r) == render_step(
                old(self).sp_focus(),
                old(self).sp_render_type(),
                force,
            ),
            old(self).keeps(*final(self)),
            final(self).sp_focus() == old(self).sp_focus(),
    {
        let (rt, draw) = render_step_exec(self.focus, self.render_type, force);
        self.render_type = rt;
        draw
    }

    /// The button takes the focus.
    pub fn focus(&mut self)
        ensures
            final(self).sp_focus(),
            old(self).keeps(*final(self)),
            final(self).sp_render_type() == old(self).sp_render_type(),
    {
        self.focus = true;
    }

    /// The button loses the focus.
    pub fn leave(&mut self)
        ensures
            !final(self).sp_focus(),
            old(self).keeps(*final(self)),
            final(self).sp_render_type() == old(self).sp_render_type(),
    {
        self.focus = false;
    }

    /// Enter asks for what the button does; other events are handed back.
    /// A simple button cannot be pressed.
    pub fn handle_event(&mut self, evnt: Event) -> (r: Result<Option<Event>>)
        requires
            old(self).can_take(evnt),
        ensures
            *final(self) == *old(self),
            r == Ok::<Option<Event>, crate::errors::Error>(old(self).pressed(evnt)),
    {
        match evnt.to_key_code() {
            Some(KeyCode::Enter) => match self.btyp {
                ButtonType::Submit => Ok(Some(Event::Submit)),
                ButtonType::Cancel => Ok(Some(Event::Cancel)),
                _ => Ok(Some(Event::Reset)),
            },
            _ => Ok(Some(evnt)),
        }
    }

    /// The button drawn in background `bg` and foreground `fg`.
    fn make_term_cache(&self, bg: u8, fg: u8) -> (r: String)
        requires
            button_fits(self.sp_vp(), self.sp_text()),
        ensures
            r@ == button_seq(self.sp_vp(), self.sp_text(), self.sp_bold(), bg, fg),
    {
        let (col, row) = self.vp.to_origin();
        let (_, width) = self.vp.to_size();
        let mut s = ansi::move_to(col - 1, row - 1);
        s.append(ansi::set_background(bg).as_str());
        s.append(ansi::set_foreground(fg).as_str());
        if self.bold {
            s.append(ansi::set_bold().as_str());
        }
        let w = text::chars_width_sum(&text::str_chars(self.text.as_str()));
        let t_width: u16 = (w % 65536) as u16;
        let l_width = (width - t_width) / 2;
        let r_width = width - t_width - l_width;
        s.append(text::repeat_char(' ', l_width as usize).as_str());
        s.append(self.text.as_str());
        s.append(text::repeat_char(' ', r_width as usize).as_str());
        assert(s@ =~= button_seq(self.sp_vp(), self.sp_text(), self.sp_bold(), bg, fg));
        s
    }

    /// The button as it looks now.
    pub fn to_string(&self) -> (r: String)
        ensures
            r@ == self.drawing(),
    {
        match self.render_type {
            RenderType::Normal => text::str_to_string(self.tc_normal.as_str()),
            RenderType::Highlt => text::str_to_string(self.tc_highlt.as_str()),
        }
    }
}

// ---------------------------------------------------------------------
// Border.

/// The cells of a vertical side: `n` cells of column `x` from row `row` on,
/// each a `│`.
pub open spec fn border_side(x: u16, row: u16, n: nat) -> Seq<char>
    decreases n,
{
    if n == 0 {
        Seq::<char>::empty()
    } else {
        border_side(x, row, (n - 1) as nat) + move_to_seq(x, (row + n - 1) as u16) + seq!['│']
    }
}

/// A box can be drawn around the viewport: its corners are cells of the
/// terminal.
pub open spec fn border_fits(vp: Viewport) -> bool {
    &&& has_origin(vp)
    &&& 1 <= vp.sp_col() - 1 + vp.sp_width() <= u16::MAX
    &&& 1 <= vp.sp_row() - 1 + vp.sp_height() <= u16::MAX
}

/// A box with round corners along the edges of the viewport: top, right
/// side, bottom, left side, then the four corners.
pub open spec fn border_box(vp: Viewport) -> Seq<char> {
    let col = (vp.sp_col() - 1) as u16;
    let row = (vp.sp_row() - 1) as u16;
    let ht = vp.sp_height() as nat;
    let wd = vp.sp_width() as nat;
    let right = (col + wd - 1) as u16;
    let bottom = (row + ht - 1) as u16;
    move_to_seq(col, row) + repeat_seq('─', wd) + border_side(right, row, ht) + move_to_seq(
        col,
        bottom,
    ) + repeat_seq('─', wd) + border_side(col, row, ht) + move_to_seq(col, row) + seq!['╭']
        + move_to_seq(right, row) + seq!['╮'] + move_to_seq(right, bottom) + seq!['╯']
        + move_to_seq(col, bottom) + seq!['╰']
}

/// Each row of a vertical side gets its `│`: for every `h` below `n`, the
/// side moves to row `row + h` of column `x` and draws a `│` there.
pub proof fn lemma_side_has_every_row(x: u16, row: u16, n: nat, h: nat)
    requires
        h < n,
    ensures
        text::occurs_in(border_side(x, row, n), move_to_seq(x, (row + h) as u16) + seq!['│']),
    decreases n,
{
    let piece = move_to_seq(x, (row + h) as u16) + seq!['│'];
    let prev = border_side(x, row, (n - 1) as nat);
    let last = move_to_seq(x, (row + n - 1) as u16) + seq!['│'];
    if h == n - 1 {
        text::lemma_occurs_in_self(piece);
        text::lemma_occurs_in_suffix(prev, last, piece);
    } else {
        lemma_side_has_every_row(x, row, (n - 1) as nat, h);
        text::lemma_occurs_in_prefix(prev, last, piece);
    }
    assert(border_side(x, row, n) == prev + last);
}

/// The box has both side edges: on every row of the viewport it draws a
/// `│` in the column just left of the viewport's first column (the
/// viewport counts from 1, the terminal from 0) and in the column of its
/// last cell.
pub proof fn lemma_border_has_both_sides(vp: Viewport, h: nat)
    requires
        border_fits(vp),
        h < vp.sp_height(),
    ensures
        text::occurs_in(
            border_box(vp),
            move_to_seq((vp.sp_col() - 1) as u16, (vp.sp_row() - 1 + h) as u16) + seq!['│'],
        ),
        text::occurs_in(
            border_box(vp),
            move_to_seq((vp.sp_col() - 1 + vp.sp_width() - 1) as u16, (vp.sp_row() - 1 + h) as u16)
                + seq!['│'],
        ),
{
    let col = (vp.sp_col() - 1) as u16;
    let row = (vp.sp_row() - 1) as u16;
    let ht = vp.sp_height() as nat;
    let wd = vp.sp_width() as nat;
    let right = (col + wd - 1) as u16;
    let bottom = (row + ht - 1) as u16;
    let m1 = move_to_seq(col, row);
    let r1 = repeat_seq('─', wd);
    let rside = border_side(right, row, ht);
    let m2 = move_to_seq(col, bottom);
    let lside = border_side(col, row, ht);
    let c1 = move_to_seq(col, row);
    let c2 = seq!['╭'];
    let c3 = move_to_seq(right, row);
    let c4 = seq!['╮'];
    let c5 = move_to_seq(right, bottom);
    let c6 = seq!['╯'];
    let c7 = move_to_seq(col, bottom);
    let c8 = seq!['╰'];
    let lp = move_to_seq(col, (row + h) as u16) + seq!['│'];
    let rp = move_to_seq(right, (row + h) as u16) + seq!['│'];
    lemma_side_has_every_row(col, row, ht, h);
    lemma_side_has_every_row(right, row, ht, h);
    // The right side, then everything after it.
    text::lemma_occurs_in_suffix(m1 + r1, rside, rp);
    let a = m1 + r1 + rside;
    text::lemma_occurs_in_prefix(a, m2, rp);
    text::lemma_occurs_in_prefix(a + m2, r1, rp);
    // The left side, then everything after it.
    let b = a + m2 + r1;
    text::lemma_occurs_in_suffix(b, lside, lp);
    text::lemma_occurs_in_prefix(b, lside, rp);
    let acc = b + lside;
    text::lemma_occurs_in_prefix(acc, c1, lp);
    text::lemma_occurs_in_prefix(acc, c1, rp);
    text::lemma_occurs_in_prefix(acc + c1, c2, lp);
    text::lemma_occurs_in_prefix(acc + c1, c2, rp);
    text::lemma_occurs_in_prefix(acc + c1 + c2, c3, lp);
    text::lemma_occurs_in_prefix(acc + c1 + c2, c3, rp);
    text::lemma_occurs_in_prefix(acc + c1 + c2 + c3, c4, lp);
    text::lemma_occurs_in_prefix(acc + c1 + c2 + c3, c4, rp);
    text::lemma_occurs_in_prefix(acc + c1 + c2 + c3 + c4, c5, lp);
    text::lemma_occurs_in_prefix(acc + c1 + c2 + c3 + c4, c5, rp);
    text::lemma_occurs_in_prefix(acc + c1 + c2 + c3 + c4 + c5, c6, lp);
    text::lemma_occurs_in_prefix(acc + c1 + c2 + c3 + c4 + c5, c6, rp);
    text::lemma_occurs_in_prefix(acc + c1 + c2 + c3 + c4 + c5 + c6, c7, lp);
    text::lemma_occurs_in_prefix(acc + c1 + c2 + c3 + c4 + c5 + c6, c7, rp);
    text::lemma_occurs_in_prefix(acc + c1 + c2 + c3 + c4 + c5 + c6 + c7, c8, lp);
    text::lemma_occurs_in_prefix(acc + c1 + c2 + c3 + c4 + c5 + c6 + c7, c8, rp);
    assert(border_box(vp) == acc + c1 + c2 + c3 + c4 + c5 + c6 + c7 + c8);
}

/// A box around a region, with a title in its top edge.
pub struct Border {
    vp: Viewport,
    title: String,
    focus: bool,
    tc_normal: String,
    tc_highlt: String,
    render_type: RenderType,
}

fn side(x: u16, row: u16, ht: u16) -> (r: String)
    requires
        x < u16::MAX,
        row + ht <= u16::MAX,
    ensures
        r@ == border_side(x, row, ht as nat),
{
    proof {
        reveal_strlit("│");
    }
    let mut s = text::s_new();
    let mut h: u16 = 0;
    while h < ht
        invariant
            h <= ht,
            x < u16::MAX,
            row + ht <= u16::MAX,
            s@ == border_side(x, row, h as nat),
        decreases ht - h,
    {
        proof {
            reveal_strlit("│");
        }
        s.append(ansi::move_to(x, row + h).as_str());
        s.append("│");
        h = h + 1;
        assert(s@ =~= border_side(x, row, h as nat));
    }
    s
}

impl Border {
    pub closed spec fn sp_vp(&self) -> Viewport {
        self.vp
    }

    pub closed spec fn sp_title(&self) -> Seq<char> {
        self.title@
    }

    pub closed spec fn sp_focus(&self) -> bool {
        self.focus
    }

    pub closed spec fn sp_render_type(&self) -> RenderType {
        self.render_type
    }

    pub closed spec fn sp_tc_normal(&self) -> Seq<char> {
        self.tc_normal@
    }

    pub closed spec fn sp_tc_highlt(&self) -> Seq<char> {
        self.tc_highlt@
    }

    /// A box around `vp` titled `title`.
    pub fn new(vp: Viewport, title: String) -> (r: Result<Border>)
        requires
            border_fits(vp),
        ensures
            r matches Ok(b) && {
                &&& b.sp_vp() == vp
                &&& b.sp_title() == seq![' '] + title@ + seq![' ']
                &&& !b.sp_focus()
                &&& b.sp_render_type() == RenderType::Normal
                &&& b.sp_tc_normal() == set_bg_seq(BG_LAYER) + set_fg_seq(FG_BORDER) + border_box(vp)
                &&& b.sp_tc_highlt() == set_bg_seq(BG_LAYER) + set_fg_seq(FG_BORDER_HL)
                    + border_box(vp)
            },
    {
        proof {
            reveal_strlit(" ");
        }
        let mut t = text::str_to_string(" ");
        t.append(title.as_str());
        t.append(" ");
        let mut em = Border {
            vp,
            title: t,
            focus: false,
            tc_normal: text::s_new(),
            tc_highlt: text::s_new(),
            render_type: RenderType::Normal,
        };
        let cache = em.make_term_cache();
        em.tc_normal.append(ansi::set_background(BG_LAYER).as_str());
        em.tc_normal.append(ansi::set_foreground(FG_BORDER).as_str());
        em.tc_normal.append(cache.as_str());
        em.tc_highlt.append(ansi::set_background(BG_LAYER).as_str());
        em.tc_highlt.append(ansi::set_foreground(FG_BORDER_HL).as_str());
        em.tc_highlt.append(cache.as_str());
        assert(em.tc_normal@ =~= set_bg_seq(BG_LAYER) + set_fg_seq(FG_BORDER) + border_box(vp));
        assert(em.tc_highlt@ =~= set_bg_seq(BG_LAYER) + set_fg_seq(FG_BORDER_HL) + border_box(vp));
        Ok(em)
    }

    /// `new` keeps all of this border but its focus and its highlight.
    pub open spec fn keeps(self, new: Border) -> bool {
        &&& new.sp_vp() == self.sp_vp()
        &&& new.sp_title() == self.sp_title()
        &&& new.sp_tc_normal() == self.sp_tc_normal()
        &&& new.sp_tc_highlt() == self.sp_tc_highlt()
    }

    /// Whether the border can be drawn with its title.
    pub open spec fn can_draw(self) -> bool {
        has_origin(self.sp_vp()) && self.sp_vp().sp_col() + 2 <= u16::MAX
    }

    /// The border as it looks now, with its title two columns in from the
    /// left of its top edge.
    pub open spec fn drawing(self) -> Seq<char> {
        (if self.sp_render_type() == RenderType::Normal {
            self.sp_tc_normal()
        } else {
            self.sp_tc_highlt()
        }) + move_to_seq((self.sp_vp().sp_col() + 1) as u16, (self.sp_vp().sp_row() - 1) as u16)
            + styled_seq(self.sp_title(), BG_LAYER, FG_TITLE)
    }

    /// Whether to draw the border now (when it gains or loses the
    /// highlight, or when forced).
    pub fn refresh(&mut self, force: bool) -> (r: bool)
        ensures
            (final(self).sp_render_type(), r) == render_step(
                old(self).sp_focus(),
                old(self).sp_render_type(),
                force,
            ),
            old(self).keeps(*final(self)),
            final(self).sp_focus() == old(self).sp_focus(),
    {
        let (rt, draw) = render_step_exec(self.focus, self.render_type, force);
        self.render_type = rt;
        draw
    }

    /// The border takes the focus.
    pub fn focus(&mut self)
        ensures
            final(self).sp_focus(),
            old(self).keeps(*final(self)),
            final(self).sp_render_type() == old(self).sp_render_type(),
    {
        self.focus = true;
    }

    /// The border loses the focus.
    pub fn leave(&mut self)
        ensures
            !final(self).sp_focus(),
            old(self).keeps(*final(self)),
            final(self).sp_render_type() == old(self).sp_render_type(),
    {
        self.focus = false;
    }

    /// Hands every event back.
    pub fn handle_event(&mut self, evnt: Event) -> (r: Result<Option<Event>>)
        ensures
            r == Ok::<Option<Event>, crate::errors::Error>(Some(evnt)),
            *final(self) == *old(self),
    {
        Ok(Some(evnt))
    }

    /// The box along the viewport's edges.
    fn make_term_cache(&self) -> (r: String)
        requires
            border_fits(self.sp_vp()),
        ensures
            r@ == border_box(self.sp_vp()),
    {
        proof {
            reveal_strlit("╭");
            reveal_strlit("╮");
            reveal_strlit("╯");
            reveal_strlit("╰");
        }
        let (col, row) = self.vp.to_origin();
        let (col, row) = (col - 1, row - 1);
        let (ht, wd) = self.vp.to_size();
        let right = col + wd - 1;
        let bottom = row + ht - 1;
        let mut s = ansi::move_to(col, row);
        s.append(text::repeat_char('─', wd as usize).as_str());
        s.append(side(right, row, ht).as_str());
        s.append(ansi::move_to(col, bottom).as_str());
        s.append(text::repeat_char('─', wd as usize).as_str());
        s.append(side(col, row, ht).as_str());
        s.append(ansi::move_to(col, row).as_str());
        s.append("╭");
        s.append(ansi::move_to(right, row).as_str());
        s.append("╮");
        s.append(ansi::move_to(right, bottom).as_str());
        s.append("╯");
        s.append(ansi::move_to(col, bottom).as_str());
        s.append("╰");
        assert(s@ =~= border_box(self.sp_vp()));
        s
    }

    /// The border as it looks now, with its title two columns in from the
    /// left of its top edge.
    pub fn to_string(&self) -> (r: String)
        requires
            self.can_draw(),
        ensures
            r@ == self.drawing(),
    {
        let mut s = match self.render_type {
            RenderType::Normal => text::str_to_string(self.tc_normal.as_str()),
            RenderType::Highlt => text::str_to_string(self.tc_highlt.as_str()),
        };
        let (col, row) = self.vp.to_origin();
        let col = col + 2;
        s.append(ansi::move_to(col - 1, row - 1).as_str());
        s.append(ansi::styled(self.title.as_str(), BG_LAYER, FG_TITLE).as_str());
        s
    }
}

// ---------------------------------------------------------------------
// Edit line and edit box.

/// The part of `s` from `skip` on, at most `take` characters of it.
pub open spec fn window(s: Seq<char>, skip: int, take: int) -> Seq<char> {
    let a = if skip < s.len() {
        skip
    } else {
        s.len() as int
    };
    let b = if a + take < s.len() {
        a + take
    } else {
        s.len() as int
    };
    s.subrange(a, b)
}

/// At most `width` characters of the inline hint, padded with spaces to
/// `width`.
pub open spec fn inline_line(inline: Seq<char>, width: nat) -> Seq<char> {
    let shown = window(inline, 0, width as int);
    shown + repeat_seq(' ', (width - shown.len()) as nat)
}

/// The cursor of the viewport is a cell of the terminal.
pub open spec fn cursor_fits(vp: Viewport) -> bool {
    vp.sp_col() + vp.sp_cursor_off().0 <= u16::MAX && vp.sp_row() + vp.sp_cursor_off().1 <= u16::MAX
}

/// The cell of the viewport's cursor.
pub open spec fn cursor_cell_of(vp: Viewport) -> (u16, u16) {
    ((vp.sp_col() + vp.sp_cursor_off().0) as u16, (vp.sp_row() + vp.sp_cursor_off().1) as u16)
}

/// Where the buffer reports its cursor after `evnt`.
pub open spec fn edit_res_cell(b: Buffer, evnt: Event) -> (usize, usize) {
    if edit_buffer::edit_event_of(evnt) == edit_buffer::EditEvent::Backspace && b.cursor_pos()
        == 0 {
        (0usize, 0usize)
    } else {
        let c = edit_buffer::cursor_cell(b.after(evnt).0, b.after(evnt).1);
        (c.0 as usize, c.1 as usize)
    }
}

/// The event that the buffer hands back after `evnt`.
pub open spec fn edit_res_event(evnt: Event) -> Option<Event> {
    if edit_buffer::passes_on(edit_buffer::edit_event_of(evnt)) {
        Some(evnt)
    } else {
        None
    }
}

/// The edit viewport after following the buffer: same place and size.
pub open spec fn follows(new_vp: Viewport, vp: Viewport, ed_cursor: (usize, usize)) -> bool {
    &&& new_vp.sp_cursor_off() == (vp.followed_col(ed_cursor).0, vp.followed_row(ed_cursor).0)
    &&& new_vp.sp_ed_origin() == (vp.followed_col(ed_cursor).1, vp.followed_row(ed_cursor).1)
    &&& new_vp.sp_col() == vp.sp_col()
    &&& new_vp.sp_row() == vp.sp_row()
    &&& new_vp.sp_height() == vp.sp_height()
    &&& new_vp.sp_width() == vp.sp_width()
    &&& new_vp.sp_scroll_off() == vp.sp_scroll_off()
}

/// The first line of the buffer as an edit line shows it: from the
/// viewport's first buffer column on, as many characters as it is wide.
pub open spec fn first_line_shown(b: Buffer, edit_vp: Viewport) -> Seq<char> {
    window(
        expand_tabs(line_text(b.text(), 0)),
        edit_vp.sp_ed_origin().0 as int,
        edit_vp.sp_width() as int,
    )
}

/// What an edit element draws before its text: the field name, the hint
/// padded to the edit width, and a mark when the field is mandatory.
pub open spec fn edit_cache(
    vp: Viewport,
    edit_vp: Viewport,
    field: Seq<char>,
    inline: Seq<char>,
    mandatory: bool,
) -> Seq<char> {
    move_to_origin(vp) + (if field.len() > 0 {
        styled_seq(field, BG_LAYER, FG_FIELD)
    } else {
        Seq::<char>::empty()
    }) + styled_seq(inline_line(inline, edit_vp.sp_width() as nat), BG_EDIT, FG_EDIT_INLINE) + (
    if mandatory {
        styled_seq(seq!['*'], BG_LAYER, FG_MANDATORY)
    } else {
        Seq::<char>::empty()
    })
}

/// The characters of `s` from `skip` on, at most `take` of them.
fn window_chars(s: &String, skip: usize, take: usize) -> (r: String)
    ensures
        r@ == window(s@, skip as int, take as int),
{
    let cs = text::str_chars(s.as_str());
    let n = cs.len();
    let a = if skip < n {
        skip
    } else {
        n
    };
    let b = if take < n - a {
        a + take
    } else {
        n
    };
    let mut v: Vec<char> = Vec::new();
    let mut i = a;
    while i < b
        invariant
            a <= i <= b <= n,
            n == cs@.len(),
            v@ == cs@.subrange(a as int, i as int),
        decreases b - i,
    {
        v.push(cs[i]);
        i = i + 1;
        assert(v@ =~= cs@.subrange(a as int, i as int));
    }
    text::string_from_chars(v.as_slice())
}

/// The hint padded to `width`.
fn inline_padded(inline: &String, width: u16) -> (r: String)
    ensures
        r@ == inline_line(inline@, width as nat),
{
    let shown = window_chars(inline, 0, width as usize);
    let n = text::str_chars(shown.as_str()).len();
    let mut s = shown;
    let pad = text::repeat_char(' ', (width as usize) - n);
    s.append(pad.as_str());
    s
}

/// Draws the field name, the hint and the mandatory mark.
fn make_edit_cache(
    vp: Viewport,
    edit_vp: Viewport,
    field: &String,
    inline: &String,
    mandatory: bool,
) -> (r: String)
    requires
        has_origin(vp),
    ensures
        r@ == edit_cache(vp, edit_vp, field@, inline@, mandatory),
{
    proof {
        reveal_strlit("*");
    }
    let (col, row) = vp.to_origin();
    let (_, ed_width) = edit_vp.to_size();
    let edit_line = inline_padded(inline, ed_width);
    let mut s = ansi::move_to(col - 1, row - 1);
    if !field.as_str().is_empty() {
        s.append(ansi::styled(field.as_str(), BG_LAYER, FG_FIELD).as_str());
    }
    s.append(ansi::styled(edit_line.as_str(), BG_EDIT, FG_EDIT_INLINE).as_str());
    if mandatory {
        s.append(ansi::styled("*", BG_LAYER, FG_MANDATORY).as_str());
    }
    assert(s@ =~= edit_cache(vp, edit_vp, field@, inline@, mandatory));
    s
}

/// A field name of this width can be put in front of the edit viewport.
pub open spec fn field_fits(vp: Viewport, field: Seq<char>) -> bool {
    let w16 = text_cols(field);
    &&& i16::MIN <= (vp.sp_col() as i16) + (w16 as u16 as i16) <= i16::MAX
    &&& i16::MIN <= (vp.sp_row() as i16) <= i16::MAX
    &&& w16 <= vp.sp_width()
}

/// The edit viewport moved right by the field's width and narrowed by it,
/// with height `height`.
pub open spec fn shifted_for_field(new_vp: Viewport, vp: Viewport, field: Seq<char>, height: u16) -> bool {
    let w16 = text_cols(field);
    &&& new_vp.sp_col() == ((vp.sp_col() as i16) + (w16 as u16 as i16)) as u16
    &&& new_vp.sp_row() == vp.sp_row()
    &&& new_vp.sp_height() == height
    &&& new_vp.sp_width() == vp.sp_width() - w16
    &&& new_vp.sp_ed_origin() == vp.sp_ed_origin()
    &&& new_vp.sp_cursor_off() == vp.sp_cursor_off()
    &&& new_vp.sp_scroll_off() == vp.sp_scroll_off()
}

proof fn lemma_u16_i16_roundtrip(x: u16)
    ensures
        ((x as i16) as u16) == x,
{
    assert(((x as i16) as u16) == x) by (bit_vector);
}

/// Moves the edit viewport right by the display width of `field` and
/// narrows it as much.
fn shift_for_field(edit_vp: Viewport, field: &String, height: u16) -> (r: Viewport)
    requires
        field_fits(edit_vp, field@),
    ensures
        shifted_for_field(r, edit_vp, field@, height),
{
    let (_, width) = edit_vp.to_size();
    let w = text::chars_width_sum(&text::str_chars(field.as_str()));
    let w16: u16 = (w % 65536) as u16;
    assert(w16 == text_cols(field@));
    let off: i16 = w16 as i16;
    assert(off == (text_cols(field@) as u16 as i16));
    let moved = edit_vp.move_by(off, 0);
    proof {
        lemma_u16_i16_roundtrip(edit_vp.sp_row());
    }
    moved.resize_to(height, width - w16)
}

/// An edit element's key goes to its buffer, rather than being handed back
/// for moving between elements.
pub open spec fn line_routes(evnt: Event) -> bool {
    match crate::event::key_code_of(evnt) {
        Some(KeyCode::Enter) | Some(KeyCode::Esc) | Some(KeyCode::Up) | Some(KeyCode::Down)
        | Some(KeyCode::PageUp) | Some(KeyCode::PageDown) | Some(KeyCode::Tab) => false,
        Some(KeyCode::BackTab) => crate::event::modifiers_of(evnt).bits != 0,
        _ => true,
    }
}

/// Whether an edit line gives `evnt` to its buffer.
fn routes_line(evnt: &Event) -> (r: bool)
    ensures
        r == line_routes(*evnt),
{
    match evnt.to_key_code() {
        Some(KeyCode::Enter) | Some(KeyCode::Esc) | Some(KeyCode::Up) | Some(KeyCode::Down)
        | Some(KeyCode::PageUp) | Some(KeyCode::PageDown) | Some(KeyCode::Tab) => false,
        Some(KeyCode::BackTab) => !evnt.to_modifier().is_empty(),
        _ => true,
    }
}

/// Whether an editing element can take `evnt` (see `edit_can_take`).
fn edit_can_handle(b: &Buffer, edit_vp: &Viewport, evnt: &Event, routed: bool) -> (r: bool)
    ensures
        r == edit_can_take(*b, *edit_vp, *evnt, routed),
{
    if routed {
        if !b.accepts(evnt) {
            return false;
        }
        let mut copy = b.clone();
        match copy.handle_event(*evnt) {
            Ok(res) => edit_vp.can_follow_cursor((res.col_at, res.row_at)),
            Err(_) => false,
        }
    } else {
        edit_vp.cursor_fits()
    }
}

/// An edit line can take `evnt`: the buffer can, and the viewport can
/// follow where the buffer puts the cursor; or the event is handed back
/// and the cursor is a cell of the terminal.
pub open spec fn edit_can_take(b: Buffer, edit_vp: Viewport, evnt: Event, routed: bool) -> bool {
    if routed {
        &&& b.can_take(evnt)
        &&& edit_vp.can_follow(edit_res_cell(b, evnt))
    } else {
        cursor_fits(edit_vp)
    }
}

/// A one-line editable field, with an optional field name in front, a
/// hint shown until it takes the focus, and a mark for mandatory fields.
pub struct EditLine {
    vp: Viewport,
    edit_vp: Viewport,
    field: String,
    mandatory: bool,
    inline: String,
    buffer: Buffer,
    focus: bool,
    tc_line: String,
}

impl EditLine {
    pub closed spec fn sp_vp(&self) -> Viewport {
        self.vp
    }

    pub closed spec fn sp_edit_vp(&self) -> Viewport {
        self.edit_vp
    }

    pub closed spec fn sp_field(&self) -> Seq<char> {
        self.field@
    }

    pub closed spec fn sp_mandatory(&self) -> bool {
        self.mandatory
    }

    pub closed spec fn sp_inline(&self) -> Seq<char> {
        self.inline@
    }

    pub closed spec fn sp_buffer(&self) -> Buffer {
        self.buffer
    }

    pub closed spec fn sp_focus(&self) -> bool {
        self.focus
    }

    pub closed spec fn sp_tc_line(&self) -> Seq<char> {
        self.tc_line@
    }

    /// The kept drawing matches the element.
    pub open spec fn cache_ok(&self) -> bool {
        self.sp_tc_line() == edit_cache(
            self.sp_vp(),
            self.sp_edit_vp(),
            self.sp_field(),
            self.sp_inline(),
            self.sp_mandatory(),
        )
    }

    /// An empty edit line over `vp`.
    pub fn new(vp: Viewport) -> (r: Result<EditLine>)
        requires
            has_origin(vp),
        ensures
            r matches Ok(e) && {
                &&& e.sp_vp() == vp
                &&& e.sp_edit_vp() == vp
                &&& e.sp_field() == Seq::<char>::empty()
                &&& !e.sp_mandatory()
                &&& e.sp_inline() == Seq::<char>::empty()
                &&& e.sp_buffer().text() == Seq::<char>::empty()
                &&& e.sp_buffer().cursor_pos() == 0
                &&& !e.sp_focus()
                &&& e.cache_ok()
            },
    {
        let buffer = match Buffer::empty() {
            Ok(b) => b,
            Err(e) => return Err(e),
        };
        let mut em = EditLine {
            vp,
            edit_vp: vp,
            field: text::s_new(),
            mandatory: false,
            inline: text::s_new(),
            buffer,
            focus: false,
            tc_line: text::s_new(),
        };
        em.tc_line = make_edit_cache(em.vp, em.edit_vp, &em.field, &em.inline, em.mandatory);
        Ok(em)
    }

    /// Sets the hint shown until the line takes the focus.
    pub fn set_inline(&mut self, inline: &str) -> (r: &mut Self)
        requires
            has_origin(old(self).sp_vp()),
        ensures
            r.sp_inline() == inline@,
            r.cache_ok(),
            r.sp_vp() == old(self).sp_vp(),
            r.sp_edit_vp() == old(self).sp_edit_vp(),
            r.sp_field() == old(self).sp_field(),
            r.sp_mandatory() == old(self).sp_mandatory(),
            r.sp_buffer() == old(self).sp_buffer(),
            r.sp_focus() == old(self).sp_focus(),
            *final(self) == *final(r),
    {
        self.inline = text::str_to_string(inline);
        self.tc_line = make_edit_cache(self.vp, self.edit_vp, &self.field, &self.inline, self.mandatory);
        self
    }

    /// Sets the field name, and moves the editable part right of it.
    pub fn set_field(&mut self, field: &str) -> (r: &mut Self)
        requires
            has_origin(old(self).sp_vp()),
            field_fits(old(self).sp_edit_vp(), field@),
        ensures
            r.sp_field() == field@,
            shifted_for_field(r.sp_edit_vp(), old(self).sp_edit_vp(), field@, 1),
            r.cache_ok(),
            r.sp_vp() == old(self).sp_vp(),
            r.sp_inline() == old(self).sp_inline(),
            r.sp_mandatory() == old(self).sp_mandatory(),
            r.sp_buffer() == old(self).sp_buffer(),
            r.sp_focus() == old(self).sp_focus(),
            *final(self) == *final(r),
    {
        self.field = text::str_to_string(field);
        self.edit_vp = shift_for_field(self.edit_vp, &self.field, 1);
        self.tc_line = make_edit_cache(self.vp, self.edit_vp, &self.field, &self.inline, self.mandatory);
        self
    }

    /// Marks the field mandatory or not; the editable part gives up its
    /// last column for the mark (in either case).
    pub fn set_mandatory(&mut self, mandatory: bool) -> (r: &mut Self)
        requires
            has_origin(old(self).sp_vp()),
            old(self).sp_edit_vp().sp_width() >= 1,
        ensures
            r.sp_mandatory() == mandatory,
            r.sp_edit_vp().sp_width() == old(self).sp_edit_vp().sp_width() - 1,
            r.sp_edit_vp().sp_height() == 1,
            r.sp_edit_vp().sp_col() == old(self).sp_edit_vp().sp_col(),
            r.sp_edit_vp().sp_row() == old(self).sp_edit_vp().sp_row(),
            r.sp_edit_vp().sp_ed_origin() == old(self).sp_edit_vp().sp_ed_origin(),
            r.sp_edit_vp().sp_cursor_off() == old(self).sp_edit_vp().sp_cursor_off(),
            r.sp_edit_vp().sp_scroll_off() == old(self).sp_edit_vp().sp_scroll_off(),
            r.cache_ok(),
            r.sp_vp() == old(self).sp_vp(),
            r.sp_field() == old(self).sp_field(),
            r.sp_inline() == old(self).sp_inline(),
            r.sp_buffer() == old(self).sp_buffer(),
            r.sp_focus() == old(self).sp_focus(),
            *final(self) == *final(r),
    {
        self.mandatory = mandatory;
        let (_, width) = self.edit_vp.to_size();
        self.edit_vp = self.edit_vp.resize_to(1, width - 1);
        self.tc_line = make_edit_cache(self.vp, self.edit_vp, &self.field, &self.inline, self.mandatory);
        self
    }

    /// The part of the first line of the text that the line shows.
    fn get_buffer_line(&self) -> (r: String)
        requires
            self.sp_buffer().wf(),
        ensures
            r@ == first_line_shown(self.sp_buffer(), self.sp_edit_vp()),
    {
        let (_, ed_width) = self.edit_vp.to_size();
        let (ed_col, _ed_row) = self.edit_vp.to_ed_origin();
        let lines = self.buffer.view_lines(0);
        proof {
            assert(lines.deep_view().len() == count_lines(self.buffer.text()));
            assert(lines.deep_view().len() == lines@.len());
            assert(lines.deep_view()[0] == lines@[0]@);
        }
        window_chars(&lines[0], ed_col, ed_width as usize)
    }

    /// `new` keeps this line's place, label and whether it is mandatory.
    pub open spec fn keeps(self, new: EditLine) -> bool {
        &&& new.sp_vp() == self.sp_vp()
        &&& new.sp_field() == self.sp_field()
        &&& new.sp_mandatory() == self.sp_mandatory()
    }

    /// What a refresh leaves and returns: whether the line has the focus;
    /// when forced, its drawing is made anew.
    pub open spec fn refreshed(self, new: EditLine, force: bool, r: bool) -> bool {
        &&& r == self.sp_focus()
        &&& force ==> new.cache_ok()
        &&& !force ==> new.sp_tc_line() == self.sp_tc_line()
        &&& self.keeps(new)
        &&& new.sp_edit_vp() == self.sp_edit_vp()
        &&& new.sp_inline() == self.sp_inline()
        &&& new.sp_buffer() == self.sp_buffer()
        &&& new.sp_focus() == self.sp_focus()
    }

    /// Whether the line can take the focus.
    pub open spec fn can_focus(self) -> bool {
        has_origin(self.sp_vp()) && cursor_fits(self.sp_edit_vp())
    }

    /// What taking the focus leaves and returns: the hint is gone, and the
    /// cell to put the terminal's cursor in.
    pub open spec fn focused(self, new: EditLine, cell: (u16, u16)) -> bool {
        &&& cell == cursor_cell_of(self.sp_edit_vp())
        &&& new.sp_focus()
        &&& self.sp_inline().len() > 0 ==> new.sp_inline() == Seq::<char>::empty() && new.cache_ok()
        &&& self.sp_inline().len() == 0 ==> new.sp_inline() == self.sp_inline() && new.sp_tc_line()
            == self.sp_tc_line()
        &&& self.keeps(new)
        &&& new.sp_edit_vp() == self.sp_edit_vp()
        &&& new.sp_buffer() == self.sp_buffer()
    }

    /// What losing the focus leaves.
    pub open spec fn left(self, new: EditLine) -> bool {
        &&& !new.sp_focus()
        &&& self.keeps(new)
        &&& new.sp_edit_vp() == self.sp_edit_vp()
        &&& new.sp_inline() == self.sp_inline()
        &&& new.sp_buffer() == self.sp_buffer()
        &&& new.sp_tc_line() == self.sp_tc_line()
    }

    /// Whether the line can take `evnt`.
    pub open spec fn can_take(self, evnt: Event) -> bool {
        edit_can_take(self.sp_buffer(), self.sp_edit_vp(), evnt, line_routes(evnt))
    }

    /// Whether the line can take `evnt`.
    pub fn can_handle(&self, evnt: &Event) -> (r: bool)
        ensures
            r == self.can_take(*evnt),
    {
        edit_can_handle(&self.buffer, &self.edit_vp, evnt, routes_line(evnt))
    }

    /// What handling `evnt` leaves and returns: keys that move between
    /// elements are handed back; any other event edits the text, and the
    /// view follows the cursor.
    pub open spec fn handled(
        self,
        new: EditLine,
        evnt: Event,
        r: Result<(Option<Event>, (u16, u16))>,
    ) -> bool {
        &&& line_routes(evnt) ==> ({
            let cell = edit_res_cell(self.sp_buffer(), evnt);
            &&& (new.sp_buffer().text(), new.sp_buffer().cursor_pos()) == self.sp_buffer().after(
                evnt,
            )
            &&& new.sp_buffer().wf()
            &&& follows(new.sp_edit_vp(), self.sp_edit_vp(), cell)
            &&& r matches Ok((e, c)) && e == edit_res_event(evnt) && c == cursor_cell_of(
                new.sp_edit_vp(),
            )
        })
        &&& !line_routes(evnt) ==> new.sp_buffer() == self.sp_buffer() && new.sp_edit_vp()
            == self.sp_edit_vp() && (r matches Ok((e, c)) && e == Some(evnt) && c
            == cursor_cell_of(self.sp_edit_vp()))
        &&& self.keeps(new)
        &&& new.sp_inline() == self.sp_inline()
        &&& new.sp_focus() == self.sp_focus()
        &&& new.sp_tc_line() == self.sp_tc_line()
    }

    /// Whether the line can be drawn.
    pub open spec fn can_draw(self) -> bool {
        has_origin(self.sp_edit_vp()) && self.sp_buffer().wf()
    }

    /// The line drawn: its kept drawing, then the visible text.
    pub open spec fn drawing(self) -> Seq<char> {
        self.sp_tc_line() + move_to_origin(self.sp_edit_vp()) + styled_seq(
            first_line_shown(self.sp_buffer(), self.sp_edit_vp()),
            BG_EDIT,
            FG_EDIT,
        )
    }

    /// Whether to draw the line (only when it has the focus); when forced,
    /// its drawing is made anew first.
    pub fn refresh(&mut self, force: bool) -> (r: bool)
        requires
            has_origin(old(self).sp_vp()),
        ensures
            old(self).refreshed(*final(self), force, r),
    {
        if force {
            self.tc_line = make_edit_cache(self.vp, self.edit_vp, &self.field, &self.inline, self.mandatory);
        }
        self.focus
    }

    /// Takes the focus: the hint goes away, and the result is the cell to
    /// put the terminal's cursor in.
    pub fn focus(&mut self) -> (r: (u16, u16))
        requires
            old(self).can_focus(),
        ensures
            old(self).focused(*final(self), r),
    {
        if !self.inline.as_str().is_empty() {
            self.inline = text::s_new();
            self.tc_line = make_edit_cache(self.vp, self.edit_vp, &self.field, &self.inline, self.mandatory);
        }
        let cell = self.edit_vp.to_cursor();
        self.focus = true;
        cell
    }

    /// Loses the focus.
    pub fn leave(&mut self)
        ensures
            old(self).left(*final(self)),
    {
        self.focus = false;
    }

    /// Keys that move between elements (Enter, Esc, Up, Down, Page Up and
    /// Down, Tab, plain Back-tab) are handed back; any other event edits the
    /// text, and the view follows the cursor. The result is the event handed
    /// back and the cell to put the terminal's cursor in.
    pub fn handle_event(&mut self, evnt: Event) -> (r: Result<(Option<Event>, (u16, u16))>)
        requires
            old(self).can_take(evnt),
        ensures
            old(self).handled(*final(self), evnt, r),
    {
        let m = evnt.to_modifier();
        let out = match evnt.to_key_code() {
            Some(KeyCode::Enter) | Some(KeyCode::Esc) | Some(KeyCode::Up) | Some(KeyCode::Down)
            | Some(KeyCode::PageUp) | Some(KeyCode::PageDown) | Some(KeyCode::Tab) => Some(evnt),
            Some(KeyCode::BackTab) if m.is_empty() => Some(evnt),
            _ => {
                let res = match self.buffer.handle_event(evnt) {
                    Ok(res) => res,
                    Err(e) => return Err(e),
                };
                proof {
                    lemma_follow_tracks_cursor(self.edit_vp, (res.col_at, res.row_at));
                }
                self.edit_vp.apply_ed_cursor((res.col_at, res.row_at));
                res.evnt
            },
        };
        let cell = self.edit_vp.to_cursor();
        Ok((out, cell))
    }

    /// The line drawn: its kept drawing, then the visible text.
    pub fn to_string(&self) -> (r: String)
        requires
            self.can_draw(),
        ensures
            r@ == self.drawing(),
    {
        let mut s = text::str_to_string(self.tc_line.as_str());
        let buf_line = self.get_buffer_line();
        let (ed_col, ed_row) = self.edit_vp.to_origin();
        s.append(ansi::move_to(ed_col - 1, ed_row - 1).as_str());
        s.append(ansi::styled(buf_line.as_str(), BG_EDIT, FG_EDIT).as_str());
        s
    }
}

/// The blank rows of an edit box: `n` rows of `width` spaces from row
/// `y0` on, at column `x`.
pub open spec fn box_blank(x: u16, y0: u16, n: nat, width: nat) -> Seq<char>
    decreases n,
{
    if n == 0 {
        Seq::<char>::empty()
    } else {
        box_blank(x, y0, (n - 1) as nat, width) + move_to_seq(x, (y0 + n - 1) as u16) + styled_seq(
            repeat_seq(' ', width),
            BG_EDIT,
            BG_EDIT,
        )
    }
}

/// The text rows of an edit box: each line, from column `skip` on and at
/// most `width` wide, on its row from `y0` on, at column `x`.
pub open spec fn box_lines(x: u16, y0: u16, lines: Seq<Seq<char>>, skip: int, width: int) -> Seq<
    char,
>
    decreases lines.len(),
{
    if lines.len() == 0 {
        Seq::<char>::empty()
    } else {
        box_lines(x, y0, lines.drop_last(), skip, width) + move_to_seq(
            x,
            (y0 + lines.len() - 1) as u16,
        ) + styled_seq(window(lines.last(), skip, width), BG_EDIT, FG_EDIT)
    }
}

/// The `i`-th line drawn by an edit box goes on its own row: the drawing
/// of the first `i + 1` lines is the drawing of the first `i`, then a move
/// to column `x` of row `y0 + i`, then that line's visible part.
pub proof fn lemma_box_line_on_its_row(
    x: u16,
    y0: u16,
    lines: Seq<Seq<char>>,
    skip: int,
    width: int,
    i: int,
)
    requires
        0 <= i < lines.len(),
    ensures
        box_lines(x, y0, lines.take(i + 1), skip, width) == box_lines(x, y0, lines.take(i), skip, width)
            + move_to_seq(x, (y0 + i) as u16) + styled_seq(window(lines[i], skip, width), BG_EDIT, FG_EDIT),
{
    let t = lines.take(i + 1);
    assert(t.drop_last() =~= lines.take(i));
    assert(t.last() == lines[i]);
}

/// Every line shown by an edit box is drawn on its own row: for each `i`,
/// the drawing holds a move to column `x` of row `y0 + i` followed by the
/// visible part of the `i`-th line.
pub proof fn lemma_box_draws_every_line(
    x: u16,
    y0: u16,
    lines: Seq<Seq<char>>,
    skip: int,
    width: int,
    i: int,
)
    requires
        0 <= i < lines.len(),
    ensures
        text::occurs_in(
            box_lines(x, y0, lines, skip, width),
            move_to_seq(x, (y0 + i) as u16) + styled_seq(window(lines[i], skip, width), BG_EDIT, FG_EDIT),
        ),
    decreases lines.len(),
{
    let piece = move_to_seq(x, (y0 + i) as u16) + styled_seq(
        window(lines[i], skip, width),
        BG_EDIT,
        FG_EDIT,
    );
    let n = lines.len() as int;
    let prev = box_lines(x, y0, lines.drop_last(), skip, width);
    let last = move_to_seq(x, (y0 + n - 1) as u16) + styled_seq(
        window(lines.last(), skip, width),
        BG_EDIT,
        FG_EDIT,
    );
    if i == n - 1 {
        text::lemma_occurs_in_self(piece);
        text::lemma_occurs_in_suffix(prev, last, piece);
    } else {
        lemma_box_draws_every_line(x, y0, lines.drop_last(), skip, width, i);
        assert(lines.drop_last()[i] == lines[i]);
        text::lemma_occurs_in_prefix(prev, last, piece);
    }
    assert(box_lines(x, y0, lines, skip, width) == prev + last);
}

/// The lines that an edit box shows: from its first buffer row on, as
/// many as it is high.
pub open spec fn box_view(b: Buffer, edit_vp: Viewport, height: nat) -> Seq<Seq<char>> {
    let from = edit_vp.sp_ed_origin().1 as int;
    let n = count_lines(b.text()) - from;
    let shown = if n < height {
        n
    } else {
        height as int
    };
    Seq::new(shown as nat, |i: int| expand_tabs(line_text(b.text(), from + i)))
}

/// An edit box's key goes to its buffer: all but Enter with alt or control
/// and plain Back-tab.
pub open spec fn box_routes(evnt: Event) -> bool {
    let bits = crate::event::modifiers_of(evnt).bits;
    match crate::event::key_code_of(evnt) {
        Some(KeyCode::Enter) => !(bits & crate::event::ALT == crate::event::ALT || bits
            & crate::event::CONTROL == crate::event::CONTROL),
        Some(KeyCode::BackTab) => bits != 0,
        _ => true,
    }
}

/// Whether an edit box gives `evnt` to its buffer.
fn routes_box(evnt: &Event) -> (r: bool)
    ensures
        r == box_routes(*evnt),
{
    let m = evnt.to_modifier();
    match evnt.to_key_code() {
        Some(KeyCode::Enter) => !(m.contains(crate::event::ALT) || m.contains(
            crate::event::CONTROL,
        )),
        Some(KeyCode::BackTab) => !m.is_empty(),
        _ => true,
    }
}

/// A multi-line editable field, with an optional field name in front, a
/// hint shown until it takes the focus, and a mark for mandatory fields.
pub struct EditBox {
    vp: Viewport,
    edit_vp: Viewport,
    field: String,
    mandatory: bool,
    inline: String,
    buffer: Buffer,
    focus: bool,
    tc_line: String,
}

impl EditBox {
    pub closed spec fn sp_vp(&self) -> Viewport {
        self.vp
    }

    pub closed spec fn sp_edit_vp(&self) -> Viewport {
        self.edit_vp
    }

    pub closed spec fn sp_field(&self) -> Seq<char> {
        self.field@
    }

    pub closed spec fn sp_mandatory(&self) -> bool {
        self.mandatory
    }

    pub closed spec fn sp_inline(&self) -> Seq<char> {
        self.inline@
    }

    pub closed spec fn sp_buffer(&self) -> Buffer {
        self.buffer
    }

    pub closed spec fn sp_focus(&self) -> bool {
        self.focus
    }

    pub closed spec fn sp_tc_line(&self) -> Seq<char> {
        self.tc_line@
    }

    /// The kept drawing matches the element.
    pub open spec fn cache_ok(&self) -> bool {
        self.sp_tc_line() == edit_cache(
            self.sp_vp(),
            self.sp_edit_vp(),
            self.sp_field(),
            self.sp_inline(),
            self.sp_mandatory(),
        )
    }

    /// An empty edit box over `vp`.
    pub fn new(vp: Viewport) -> (r: Result<EditBox>)
        requires
            has_origin(vp),
        ensures
            r matches Ok(e) && {
                &&& e.sp_vp() == vp
                &&& e.sp_edit_vp() == vp
                &&& e.sp_field() == Seq::<char>::empty()
                &&& !e.sp_mandatory()
                &&& e.sp_inline() == Seq::<char>::empty()
                &&& e.sp_buffer().text() == Seq::<char>::empty()
                &&& e.sp_buffer().cursor_pos() == 0
                &&& !e.sp_focus()
                &&& e.cache_ok()
            },
    {
        let buffer = match Buffer::empty() {
            Ok(b) => b,
            Err(e) => return Err(e),
        };
        let mut em = EditBox {
            vp,
            edit_vp: vp,
            field: text::s_new(),
            mandatory: false,
            inline: text::s_new(),
            buffer,
            focus: false,
            tc_line: text::s_new(),
        };
        em.tc_line = make_edit_cache(em.vp, em.edit_vp, &em.field, &em.inline, em.mandatory);
        Ok(em)
    }

    /// Sets the hint shown until the box takes the focus.
    pub fn set_inline(&mut self, inline: &str) -> (r: &mut Self)
        requires
            has_origin(old(self).sp_vp()),
        ensures
            r.sp_inline() == inline@,
            r.cache_ok(),
            r.sp_vp() == old(self).sp_vp(),
            r.sp_edit_vp() == old(self).sp_edit_vp(),
            r.sp_field() == old(self).sp_field(),
            r.sp_mandatory() == old(self).sp_mandatory(),
            r.sp_buffer() == old(self).sp_buffer(),
            r.sp_focus() == old(self).sp_focus(),
            *final(self) == *final(r),
    {
        self.inline = text::str_to_string(inline);
        self.tc_line = make_edit_cache(self.vp, self.edit_vp, &self.field, &self.inline, self.mandatory);
        self
    }

    /// Sets the field name, and moves the editable part right of it.
    pub fn set_field(&mut self, field: &str) -> (r: &mut Self)
        requires
            has_origin(old(self).sp_vp()),
            field_fits(old(self).sp_edit_vp(), field@),
        ensures
            r.sp_field() == field@,
            shifted_for_field(
                r.sp_edit_vp(),
                old(self).sp_edit_vp(),
                field@,
                old(self).sp_edit_vp().sp_height(),
            ),
            r.cache_ok(),
            r.sp_vp() == old(self).sp_vp(),
            r.sp_inline() == old(self).sp_inline(),
            r.sp_mandatory() == old(self).sp_mandatory(),
            r.sp_buffer() == old(self).sp_buffer(),
            r.sp_focus() == old(self).sp_focus(),
            *final(self) == *final(r),
    {
        self.field = text::str_to_string(field);
        let (height, _) = self.edit_vp.to_size();
        self.edit_vp = shift_for_field(self.edit_vp, &self.field, height);
        self.tc_line = make_edit_cache(self.vp, self.edit_vp, &self.field, &self.inline, self.mandatory);
        self
    }

    /// Marks the field mandatory or not; the editable part gives up its
    /// last column for the mark (in either case).
    pub fn set_mandatory(&mut self, mandatory: bool) -> (r: &mut Self)
        requires
            has_origin(old(self).sp_vp()),
            old(self).sp_edit_vp().sp_width() >= 1,
        ensures
            r.sp_mandatory() == mandatory,
            r.sp_edit_vp().sp_width() == old(self).sp_edit_vp().sp_width() - 1,
            r.sp_edit_vp().sp_height() == old(self).sp_edit_vp().sp_height(),
            r.sp_edit_vp().sp_col() == old(self).sp_edit_vp().sp_col(),
            r.sp_edit_vp().sp_row() == old(self).sp_edit_vp().sp_row(),
            r.sp_edit_vp().sp_ed_origin() == old(self).sp_edit_vp().sp_ed_origin(),
            r.sp_edit_vp().sp_cursor_off() == old(self).sp_edit_vp().sp_cursor_off(),
            r.sp_edit_vp().sp_scroll_off() == old(self).sp_edit_vp().sp_scroll_off(),
            r.cache_ok(),
            r.sp_vp() == old(self).sp_vp(),
            r.sp_field() == old(self).sp_field(),
            r.sp_inline() == old(self).sp_inline(),
            r.sp_buffer() == old(self).sp_buffer(),
            r.sp_focus() == old(self).sp_focus(),
            *final(self) == *final(r),
    {
        self.mandatory = mandatory;
        let (height, width) = self.edit_vp.to_size();
        self.edit_vp = self.edit_vp.resize_to(height, width - 1);
        self.tc_line = make_edit_cache(self.vp, self.edit_vp, &self.field, &self.inline, self.mandatory);
        self
    }

    /// `new` keeps this box's place, label and whether it is mandatory.
    pub open spec fn keeps(self, new: EditBox) -> bool {
        &&& new.sp_vp() == self.sp_vp()
        &&& new.sp_field() == self.sp_field()
        &&& new.sp_mandatory() == self.sp_mandatory()
    }

    /// What a refresh leaves and returns: whether to draw (when forced or
    /// when it has the focus); when forced while it shows a hint, its
    /// drawing is made anew.
    pub open spec fn refreshed(self, new: EditBox, force: bool, r: bool) -> bool {
        &&& r == (force || self.sp_focus())
        &&& force && self.sp_inline().len() > 0 ==> new.cache_ok()
        &&& !(force && self.sp_inline().len() > 0) ==> new.sp_tc_line() == self.sp_tc_line()
        &&& self.keeps(new)
        &&& new.sp_edit_vp() == self.sp_edit_vp()
        &&& new.sp_inline() == self.sp_inline()
        &&& new.sp_buffer() == self.sp_buffer()
        &&& new.sp_focus() == self.sp_focus()
    }

    /// Whether the box can take the focus.
    pub open spec fn can_focus(self) -> bool {
        has_origin(self.sp_vp()) && cursor_fits(self.sp_edit_vp())
    }

    /// What taking the focus leaves and returns: the hint is gone, and the
    /// cell to put the terminal's cursor in.
    pub open spec fn focused(self, new: EditBox, cell: (u16, u16)) -> bool {
        &&& cell == cursor_cell_of(self.sp_edit_vp())
        &&& new.sp_focus()
        &&& self.sp_inline().len() > 0 ==> new.sp_inline() == Seq::<char>::empty() && new.cache_ok()
        &&& self.sp_inline().len() == 0 ==> new.sp_inline() == self.sp_inline() && new.sp_tc_line()
            == self.sp_tc_line()
        &&& self.keeps(new)
        &&& new.sp_edit_vp() == self.sp_edit_vp()
        &&& new.sp_buffer() == self.sp_buffer()
    }

    /// What losing the focus leaves.
    pub open spec fn left(self, new: EditBox) -> bool {
        &&& !new.sp_focus()
        &&& self.keeps(new)
        &&& new.sp_edit_vp() == self.sp_edit_vp()
        &&& new.sp_inline() == self.sp_inline()
        &&& new.sp_buffer() == self.sp_buffer()
        &&& new.sp_tc_line() == self.sp_tc_line()
    }

    /// Whether the box can take `evnt`.
    pub open spec fn can_take(self, evnt: Event) -> bool {
        edit_can_take(self.sp_buffer(), self.sp_edit_vp(), evnt, box_routes(evnt))
    }

    /// Whether the box can take `evnt`.
    pub fn can_handle(&self, evnt: &Event) -> (r: bool)
        ensures
            r == self.can_take(*evnt),
    {
        edit_can_handle(&self.buffer, &self.edit_vp, evnt, routes_box(evnt))
    }

    /// What handling `evnt` leaves and returns: Enter with alt or control,
    /// and plain Back-tab, are handed back; any other event edits the text,
    /// and the view follows the cursor.
    pub open spec fn handled(
        self,
        new: EditBox,
        evnt: Event,
        r: Result<(Option<Event>, (u16, u16))>,
    ) -> bool {
        &&& box_routes(evnt) ==> ({
            let cell = edit_res_cell(self.sp_buffer(), evnt);
            &&& (new.sp_buffer().text(), new.sp_buffer().cursor_pos()) == self.sp_buffer().after(
                evnt,
            )
            &&& new.sp_buffer().wf()
            &&& follows(new.sp_edit_vp(), self.sp_edit_vp(), cell)
            &&& r matches Ok((e, c)) && e == edit_res_event(evnt) && c == cursor_cell_of(
                new.sp_edit_vp(),
            )
        })
        &&& !box_routes(evnt) ==> new.sp_buffer() == self.sp_buffer() && new.sp_edit_vp()
            == self.sp_edit_vp() && (r matches Ok((e, c)) && e == Some(evnt) && c
            == cursor_cell_of(self.sp_edit_vp()))
        &&& self.keeps(new)
        &&& new.sp_inline() == self.sp_inline()
        &&& new.sp_focus() == self.sp_focus()
        &&& new.sp_tc_line() == self.sp_tc_line()
    }

    /// Whether the box can be drawn.
    pub open spec fn can_draw(self) -> bool {
        &&& has_origin(self.sp_edit_vp())
        &&& self.sp_edit_vp().sp_row() + self.sp_vp().sp_height() <= u16::MAX
        &&& self.sp_buffer().wf()
        &&& self.sp_edit_vp().sp_ed_origin().1 <= count_lines(self.sp_buffer().text())
    }

    /// The box drawn: its kept drawing while it shows a hint, blank rows as
    /// high as the box, then the visible lines of the text.
    pub open spec fn drawing(self) -> Seq<char> {
        (if self.sp_inline().len() > 0 {
            self.sp_tc_line()
        } else {
            Seq::<char>::empty()
        }) + box_blank(
            (self.sp_edit_vp().sp_col() - 1) as u16,
            (self.sp_edit_vp().sp_row() - 1) as u16,
            self.sp_vp().sp_height() as nat,
            self.sp_edit_vp().sp_width() as nat,
        ) + box_lines(
            (self.sp_edit_vp().sp_col() - 1) as u16,
            (self.sp_edit_vp().sp_row() - 1) as u16,
            box_view(self.sp_buffer(), self.sp_edit_vp(), self.sp_vp().sp_height() as nat),
            self.sp_edit_vp().sp_ed_origin().0 as int,
            self.sp_edit_vp().sp_width() as int,
        )
    }

    /// Whether to draw the box: when forced (its drawing made anew first if
    /// it still shows a hint) or when it has the focus.
    pub fn refresh(&mut self, force: bool) -> (r: bool)
        requires
            has_origin(old(self).sp_vp()),
        ensures
            old(self).refreshed(*final(self), force, r),
    {
        if force {
            if !self.inline.as_str().is_empty() {
                self.tc_line = make_edit_cache(self.vp, self.edit_vp, &self.field, &self.inline, self.mandatory);
            }
            true
        } else {
            self.focus
        }
    }

    /// Takes the focus: the hint goes away, and the result is the cell to
    /// put the terminal's cursor in.
    pub fn focus(&mut self) -> (r: (u16, u16))
        requires
            old(self).can_focus(),
        ensures
            old(self).focused(*final(self), r),
    {
        if !self.inline.as_str().is_empty() {
            self.inline = text::s_new();
            self.tc_line = make_edit_cache(self.vp, self.edit_vp, &self.field, &self.inline, self.mandatory);
        }
        let cell = self.edit_vp.to_cursor();
        self.focus = true;
        cell
    }

    /// Loses the focus.
    pub fn leave(&mut self)
        ensures
            old(self).left(*final(self)),
    {
        self.focus = false;
    }

    /// Enter with alt or control, and plain Back-tab, are handed back; any
    /// other event edits the text, and the view follows the cursor. The
    /// result is the event handed back and the cell to put the terminal's
    /// cursor in.
    pub fn handle_event(&mut self, evnt: Event) -> (r: Result<(Option<Event>, (u16, u16))>)
        requires
            old(self).can_take(evnt),
        ensures
            old(self).handled(*final(self), evnt, r),
    {
        let m = evnt.to_modifier();
        let (alt, ctrl) = (m.contains(crate::event::ALT), m.contains(crate::event::CONTROL));
        let out = match evnt.to_key_code() {
            Some(KeyCode::Enter) if alt || ctrl => Some(evnt),
            Some(KeyCode::BackTab) if m.is_empty() => Some(evnt),
            _ => {
                let res = match self.buffer.handle_event(evnt) {
                    Ok(res) => res,
                    Err(e) => return Err(e),
                };
                proof {
                    lemma_follow_tracks_cursor(self.edit_vp, (res.col_at, res.row_at));
                }
                self.edit_vp.apply_ed_cursor((res.col_at, res.row_at));
                res.evnt
            },
        };
        let cell = self.edit_vp.to_cursor();
        Ok((out, cell))
    }

    /// The box drawn.
    pub fn to_string(&self) -> (r: String)
        requires
            self.can_draw(),
        ensures
            r@ == self.drawing(),
    {
        let (_, height) = (0u16, self.vp.to_size().0);
        let mut s = text::s_new();
        if !self.inline.as_str().is_empty() {
            s.append(self.tc_line.as_str());
        }
        let ghost pre = s@;
        let (ed_o_col, ed_o_row) = self.edit_vp.to_origin();
        let (_, ed_width) = self.edit_vp.to_size();
        let x = ed_o_col - 1;
        let y0 = ed_o_row - 1;
        let view_line = text::repeat_char(' ', ed_width as usize);
        let mut i: u16 = 0;
        while i < height
            invariant
                i <= height,
                y0 + height < u16::MAX,
                x < u16::MAX,
                view_line@ == repeat_seq(' ', ed_width as nat),
                s@ == pre + box_blank(x, y0, i as nat, ed_width as nat),
            decreases height - i,
        {
            s.append(ansi::move_to(x, y0 + i).as_str());
            s.append(ansi::styled(view_line.as_str(), BG_EDIT, BG_EDIT).as_str());
            i = i + 1;
            assert(s@ =~= pre + box_blank(x, y0, i as nat, ed_width as nat));
        }
        let ghost mid = s@;
        let (ed_col, from) = self.edit_vp.to_ed_origin();
        let lines = self.buffer.view_lines(from);
        let ghost all = lines.deep_view();
        let ghost view = box_view(self.buffer, self.edit_vp, height as nat);
        let n = if lines.len() < height as usize {
            lines.len()
        } else {
            height as usize
        };
        let mut k: usize = 0;
        assert(all.len() == lines@.len());
        assert(all.len() == count_lines(self.buffer.text()) - from);
        assert(n == view.len());
        assert forall|j: int| 0 <= j < n implies view[j] == all[j] by {}
        assert(view.take(0) =~= Seq::<Seq<char>>::empty());
        while k < n
            invariant
                k <= n <= height,
                n == view.len(),
                n <= lines@.len(),
                all == lines.deep_view(),
                forall|j: int| 0 <= j < n ==> view[j] == all[j],
                y0 + height < u16::MAX,
                x < u16::MAX,
                s@ == mid + box_lines(x, y0, view.take(k as int), ed_col as int, ed_width as int),
            decreases n - k,
        {
            assert(all[k as int] == lines@[k as int]@);
            let shown = window_chars(&lines[k], ed_col, ed_width as usize);
            s.append(ansi::move_to(x, y0 + (k as u16)).as_str());
            s.append(ansi::styled(shown.as_str(), BG_EDIT, FG_EDIT).as_str());
            assert(view.take(k + 1).drop_last() =~= view.take(k as int));
            k = k + 1;
            assert(s@ =~= mid + box_lines(x, y0, view.take(k as int), ed_col as int, ed_width as int));
        }
        assert(view.take(n as int) =~= view);
        s
    }
}

// ---------------------------------------------------------------------
// Head line.

/// What the head line finds waiting for it when it is refreshed.
#[derive(Clone, Copy, Debug, PartialEq, Eq, Structural)]
pub enum Received {
    /// A new date.
    Date(CalDate),
    /// A new accounting period.
    Period(CalDate, CalDate),
    /// Some other message.
    Other,
    /// Nothing.
    Empty,
    /// The sender is gone.
    Disconnected,
}

/// The line at the top of the screen: the accounting period and the date.
pub struct HeadLine {
    vp: Viewport,
    date: CalDate,
    period: (CalDate, CalDate),
}

/// The head line's text right-aligned in a line `width` wide: the period's
/// first and last day joined by `..`, a space, and the date.
pub open spec fn head_seq(vp: Viewport, date: CalDate, period: (CalDate, CalDate)) -> Seq<char> {
    move_to_origin(vp) + ansi::styled_on_seq(repeat_seq(' ', (vp.sp_width() - 30) as nat), BG_LAYER)
        + styled_seq(date_text(period.0), BG_LAYER, FG_PERIOD) + styled_seq(
        seq!['.', '.'],
        BG_LAYER,
        FG_BORDER,
    ) + styled_seq(date_text(period.1), BG_LAYER, FG_PERIOD) + styled_seq(
        seq![' '],
        BG_LAYER,
        FG_BORDER,
    ) + styled_seq(date_text(date), BG_LAYER, FG_DATE)
}

/// What the head line shows after its padding: the period's first day,
/// `..`, the period's last day, a space and the date, in that order; the
/// head line ends with them.
pub open spec fn head_tail(date: CalDate, period: (CalDate, CalDate)) -> Seq<char> {
    styled_seq(date_text(period.0), BG_LAYER, FG_PERIOD) + styled_seq(seq!['.', '.'], BG_LAYER, FG_BORDER)
        + styled_seq(date_text(period.1), BG_LAYER, FG_PERIOD) + styled_seq(seq![' '], BG_LAYER, FG_BORDER)
        + styled_seq(date_text(date), BG_LAYER, FG_DATE)
}

/// The head line ends with the period, first day first, then the date:
/// its last characters are `head_tail`.
pub proof fn lemma_head_ends_with_period_then_date(
    vp: Viewport,
    date: CalDate,
    period: (CalDate, CalDate),
)
    ensures
        head_seq(vp, date, period).len() >= head_tail(date, period).len(),
        head_seq(vp, date, period).subrange(
            head_seq(vp, date, period).len() - head_tail(date, period).len(),
            head_seq(vp, date, period).len() as int,
        ) == head_tail(date, period),
{
    let pre = move_to_origin(vp) + ansi::styled_on_seq(repeat_seq(' ', (vp.sp_width() - 30) as nat), BG_LAYER);
    let a = styled_seq(date_text(period.0), BG_LAYER, FG_PERIOD);
    let b = styled_seq(seq!['.', '.'], BG_LAYER, FG_BORDER);
    let c = styled_seq(date_text(period.1), BG_LAYER, FG_PERIOD);
    let d = styled_seq(seq![' '], BG_LAYER, FG_BORDER);
    let e = styled_seq(date_text(date), BG_LAYER, FG_DATE);
    let tail = a + b + c + d + e;
    assert(head_tail(date, period) == tail);
    assert(head_seq(vp, date, period) == pre + a + b + c + d + e);
    assert(pre + a + b + c + d + e =~= pre + tail);
    assert((pre + tail).subrange(pre.len() as int, (pre + tail).len() as int) =~= tail);
}

/// The head line of a day and its own accounting period shows the period
/// from its start, the 1st of April, to its end, the 31st of March of the
/// next year, and then the day.
pub proof fn lemma_head_line_of_own_period(vp: Viewport, date: CalDate)
    requires
        date.valid(),
        date.month <= 3 ==> date.year > util::MIN_YEAR,
        date.month > 3 ==> date.year < util::MAX_YEAR,
    ensures
        date_text(util::period_of(date).0).take(6) == seq!['0', '1', '-', 'A', 'p', 'r'],
        date_text(util::period_of(date).1).take(6) == seq!['3', '1', '-', 'M', 'a', 'r'],
        util::period_of(date).0.le(date) && date.le(util::period_of(date).1),
        head_seq(vp, date, util::period_of(date)).subrange(
            head_seq(vp, date, util::period_of(date)).len() - head_tail(date, util::period_of(date)).len(),
            head_seq(vp, date, util::period_of(date)).len() as int,
        ) == head_tail(date, util::period_of(date)),
{
    util::lemma_period_contains_date(date);
    lemma_head_ends_with_period_then_date(vp, date, util::period_of(date));
    let p = util::period_of(date);
    assert(date_text(p.0).take(6) =~= seq!['0', '1', '-', 'A', 'p', 'r']);
    assert(date_text(p.1).take(6) =~= seq!['3', '1', '-', 'M', 'a', 'r']);
}

proof fn lemma_date_text_ascii(d: CalDate)
    ensures
        date_text(d).len() == 9,
        vstd::utf8::is_ascii_chars(date_text(d)),
{
    let t = date_text(d);
    assert forall|i: int| 0 <= i < t.len() implies '\0' <= #[trigger] t[i] <= '\u{7f}' by {}
}

impl HeadLine {
    pub closed spec fn sp_vp(&self) -> Viewport {
        self.vp
    }

    pub closed spec fn sp_date(&self) -> CalDate {
        self.date
    }

    pub closed spec fn sp_period(&self) -> (CalDate, CalDate) {
        self.period
    }

    /// A head line over `vp` showing `date` and `period`.
    pub fn new(vp: Viewport, date: CalDate, period: (CalDate, CalDate)) -> (r: Result<HeadLine>)
        ensures
            r matches Ok(h) && h.sp_vp() == vp && h.sp_date() == date && h.sp_period() == period,
    {
        Ok(HeadLine { vp, date, period })
    }

    /// `new` is this head line, unchanged.
    pub open spec fn same(self, new: HeadLine) -> bool {
        new.sp_vp() == self.sp_vp() && new.sp_date() == self.sp_date() && new.sp_period()
            == self.sp_period()
    }

    /// What taking the message `msg` leaves and returns.
    pub open spec fn refreshed(self, new: HeadLine, msg: Received, force: bool, r: Result<bool>) -> bool {
        &&& new.sp_vp() == self.sp_vp()
        &&& match msg {
            Received::Date(d) => new.sp_date() == d && new.sp_period() == self.sp_period() && r
                == Ok::<bool, crate::errors::Error>(true),
            Received::Period(a, b) => new.sp_period() == (a, b) && new.sp_date() == self.sp_date()
                && r == Ok::<bool, crate::errors::Error>(true),
            Received::Disconnected => r matches Err(e) && e is IOError && self.same(new),
            _ => self.same(new) && r == Ok::<bool, crate::errors::Error>(force),
        }
    }

    /// Whether the head line can be drawn: its dates exist, and it is at
    /// least 30 columns wide.
    pub open spec fn can_draw(self) -> bool {
        &&& has_origin(self.sp_vp())
        &&& self.sp_vp().sp_width() >= 30
        &&& self.sp_date().valid()
        &&& self.sp_period().0.valid()
        &&& self.sp_period().1.valid()
    }

    /// The head line drawn at its place.
    pub open spec fn drawing(self) -> Seq<char> {
        head_seq(self.sp_vp(), self.sp_date(), self.sp_period())
    }

    /// Takes one waiting message: a date or a period replaces the one shown
    /// and asks for drawing; a lost sender is an `IOError`. The result says
    /// whether to draw (also when forced).
    pub fn refresh(&mut self, msg: Received, force: bool) -> (r: Result<bool>)
        ensures
            old(self).refreshed(*final(self), msg, force, r),
    {
        let refresh = match msg {
            Received::Date(date) => {
                self.date = date;
                true
            },
            Received::Period(from, to) => {
                self.period = (from, to);
                true
            },
            Received::Other => false,
            Received::Empty => false,
            Received::Disconnected => {
                return Err(crate::errors::Error::IOError(text::str_to_string("refresh")));
            },
        };
        Ok(refresh || force)
    }

    /// Nothing changes.
    pub fn focus(&mut self)
        ensures
            old(self).same(*final(self)),
    {
    }

    /// Nothing changes.
    pub fn leave(&mut self)
        ensures
            old(self).same(*final(self)),
    {
    }

    /// Hands every event back.
    pub fn handle_event(&mut self, evnt: Event) -> (r: Result<Option<Event>>)
        ensures
            r == Ok::<Option<Event>, crate::errors::Error>(Some(evnt)),
            old(self).same(*final(self)),
    {
        Ok(Some(evnt))
    }

    /// The head line drawn at its place. Its dates must exist, and it must
    /// be at least 30 columns wide.
    pub fn to_string(&self) -> (r: String)
        requires
            self.can_draw(),
        ensures
            r@ == self.drawing(),
    {
        broadcast use vstd::string::group_string_axioms;

        proof {
            reveal_strlit("..");
            reveal_strlit(" ");
            lemma_date_text_ascii(self.date);
            lemma_date_text_ascii(self.period.0);
            lemma_date_text_ascii(self.period.1);
            vstd::utf8::is_ascii_chars_encode_utf8(date_text(self.date));
            vstd::utf8::is_ascii_chars_encode_utf8(date_text(self.period.0));
            vstd::utf8::is_ascii_chars_encode_utf8(date_text(self.period.1));
        }
        let (col, row) = self.vp.to_origin();
        let (_, width) = self.vp.to_size();
        let s_date = util::format_date(self.date);
        let s_per0 = util::format_date(self.period.0);
        let s_per1 = util::format_date(self.period.1);
        let n = (width as usize) - s_per0.as_str().len() - s_per1.as_str().len()
            - s_date.as_str().len() - 3;
        let mut s = ansi::move_to(col - 1, row - 1);
        s.append(ansi::styled_on(text::repeat_char(' ', n).as_str(), BG_LAYER).as_str());
        s.append(ansi::styled(s_per0.as_str(), BG_LAYER, FG_PERIOD).as_str());
        s.append(ansi::styled("..", BG_LAYER, FG_BORDER).as_str());
        s.append(ansi::styled(s_per1.as_str(), BG_LAYER, FG_PERIOD).as_str());
        s.append(ansi::styled(" ", BG_LAYER, FG_BORDER).as_str());
        s.append(ansi::styled(s_date.as_str(), BG_LAYER, FG_DATE).as_str());
        assert(s@ =~= head_seq(self.sp_vp(), self.sp_date(), self.sp_period()));
        s
    }
}


// ---------------------------------------------------------------------
// Elements of a layer.

/// One of the widgets a layer is made of.
pub enum Element {
    HeadLine(HeadLine),
    Border(Border),
    Span(Span),
    EditLine(EditLine),
    EditBox(EditBox),
    StatusLine(StatusLine),
    Button(Button),
}

impl Element {
    /// The element's viewport.
    pub open spec fn vp(self) -> Viewport {
        match self {
            Element::HeadLine(em) => em.sp_vp(),
            Element::Border(em) => em.sp_vp(),
            Element::Span(em) => em.sp_vp(),
            Element::EditLine(em) => em.sp_vp(),
            Element::EditBox(em) => em.sp_vp(),
            Element::StatusLine(em) => em.sp_vp(),
            Element::Button(em) => em.sp_vp(),
        }
    }

    /// `new` is the same kind of element as this one.
    pub open spec fn same_kind(self, new: Element) -> bool {
        match (self, new) {
            (Element::HeadLine(_), Element::HeadLine(_)) => true,
            (Element::Border(_), Element::Border(_)) => true,
            (Element::Span(_), Element::Span(_)) => true,
            (Element::EditLine(_), Element::EditLine(_)) => true,
            (Element::EditBox(_), Element::EditBox(_)) => true,
            (Element::StatusLine(_), Element::StatusLine(_)) => true,
            (Element::Button(_), Element::Button(_)) => true,
            _ => false,
        }
    }

    /// Whether the element can be drawn.
    pub open spec fn can_draw(self) -> bool {
        match self {
            Element::HeadLine(em) => em.can_draw(),
            Element::Border(em) => em.can_draw(),
            Element::Span(em) => em.can_draw(),
            Element::EditLine(em) => em.can_draw(),
            Element::EditBox(em) => em.can_draw(),
            Element::StatusLine(em) => em.can_draw(),
            Element::Button(_) => true,
        }
    }

    /// The element drawn.
    pub open spec fn drawing(self) -> Seq<char> {
        match self {
            Element::HeadLine(em) => em.drawing(),
            Element::Border(em) => em.drawing(),
            Element::Span(em) => em.drawing(),
            Element::EditLine(em) => em.drawing(),
            Element::EditBox(em) => em.drawing(),
            Element::StatusLine(em) => em.drawing(),
            Element::Button(em) => em.drawing(),
        }
    }

    /// The element drawn.
    pub fn to_string(&self) -> (r: String)
        requires
            self.can_draw(),
        ensures
            r@ == self.drawing(),
    {
        match self {
            Element::HeadLine(em) => em.to_string(),
            Element::Border(em) => em.to_string(),
            Element::Span(em) => em.to_string(),
            Element::EditLine(em) => em.to_string(),
            Element::EditBox(em) => em.to_string(),
            Element::StatusLine(em) => em.to_string(),
            Element::Button(em) => em.to_string(),
        }
    }

    /// Whether the cell at `col`, `row` lies in the element's viewport.
    pub fn contain_cell(&self, col: u16, row: u16) -> (r: bool)
        requires
            self.vp().sp_col() + self.vp().sp_width() <= u16::MAX,
            self.vp().sp_row() + self.vp().sp_height() <= u16::MAX,
        ensures
            r == self.vp().contains_spec(col, row),
    {
        match self {
            Element::HeadLine(em) => em.vp.contain_cell(col, row),
            Element::Border(em) => em.vp.contain_cell(col, row),
            Element::EditLine(em) => em.vp.contain_cell(col, row),
            Element::EditBox(em) => em.vp.contain_cell(col, row),
            Element::Span(em) => em.vp.contain_cell(col, row),
            Element::StatusLine(em) => em.vp.contain_cell(col, row),
            Element::Button(em) => em.vp.contain_cell(col, row),
        }
    }

    /// Whether the element can be refreshed.
    pub open spec fn can_refresh(self) -> bool {
        match self {
            Element::EditLine(em) => has_origin(em.sp_vp()),
            Element::EditBox(em) => has_origin(em.sp_vp()),
            _ => true,
        }
    }

    /// What a refresh leaves and returns, for each kind of element: whether
    /// to draw it. Only a head line reads the message `msg`.
    pub open spec fn refreshed(self, new: Element, msg: Received, force: bool, r: Result<bool>) -> bool {
        match (self, new) {
            (Element::HeadLine(a), Element::HeadLine(b)) => a.refreshed(b, msg, force, r),
            (Element::Border(a), Element::Border(b)) => r matches Ok(d) && (b.sp_render_type(), d)
                == render_step(a.sp_focus(), a.sp_render_type(), force) && a.keeps(b)
                && b.sp_focus() == a.sp_focus(),
            (Element::Span(a), Element::Span(b)) => r == Ok::<bool, crate::errors::Error>(force)
                && b == a,
            (Element::EditLine(a), Element::EditLine(b)) => r matches Ok(d) && a.refreshed(b, force, d),
            (Element::EditBox(a), Element::EditBox(b)) => r matches Ok(d) && a.refreshed(b, force, d),
            (Element::StatusLine(a), Element::StatusLine(b)) => r == Ok::<bool, crate::errors::Error>(
                force,
            ) && a.same(b),
            (Element::Button(a), Element::Button(b)) => r matches Ok(d) && (b.sp_render_type(), d)
                == render_step(a.sp_focus(), a.sp_render_type(), force) && a.keeps(b)
                && b.sp_focus() == a.sp_focus(),
            _ => false,
        }
    }

    /// Refreshes the element; the result says whether to draw it.
    pub fn refresh(&mut self, msg: Received, force: bool) -> (r: Result<bool>)
        requires
            old(self).can_refresh(),
        ensures
            old(self).refreshed(*final(self), msg, force, r),
    {
        match self {
            Element::HeadLine(em) => em.refresh(msg, force),
            Element::Border(em) => Ok(em.refresh(force)),
            Element::Span(em) => Ok(em.refresh(force)),
            Element::EditLine(em) => Ok(em.refresh(force)),
            Element::EditBox(em) => Ok(em.refresh(force)),
            Element::StatusLine(em) => Ok(em.refresh(force)),
            Element::Button(em) => Ok(em.refresh(force)),
        }
    }

    /// Whether the element can take the focus.
    pub open spec fn can_focus(self) -> bool {
        match self {
            Element::EditLine(em) => em.can_focus(),
            Element::EditBox(em) => em.can_focus(),
            _ => true,
        }
    }

    /// What taking the focus leaves and returns, for each kind of element:
    /// an editing element gives the cell to put the terminal's cursor in.
    pub open spec fn focused(self, new: Element, cell: Option<(u16, u16)>) -> bool {
        match (self, new) {
            (Element::HeadLine(a), Element::HeadLine(b)) => cell is None && a.same(b),
            (Element::Border(a), Element::Border(b)) => cell is None && b.sp_focus() && a.keeps(b)
                && b.sp_render_type() == a.sp_render_type(),
            (Element::Span(a), Element::Span(b)) => cell is None && b == a,
            (Element::EditLine(a), Element::EditLine(b)) => cell matches Some(c) && a.focused(b, c),
            (Element::EditBox(a), Element::EditBox(b)) => cell matches Some(c) && a.focused(b, c),
            (Element::StatusLine(a), Element::StatusLine(b)) => cell is None && a.same(b),
            (Element::Button(a), Element::Button(b)) => cell is None && b.sp_focus() && a.keeps(b)
                && b.sp_render_type() == a.sp_render_type(),
            _ => false,
        }
    }

    /// The element takes the focus; an editing element gives the cell to
    /// put the terminal's cursor in.
    pub fn focus(&mut self) -> (r: Option<(u16, u16)>)
        requires
            old(self).can_focus(),
        ensures
            old(self).focused(*final(self), r),
    {
        match self {
            Element::HeadLine(em) => {
                em.focus();
                None
            },
            Element::Border(em) => {
                em.focus();
                None
            },
            Element::Span(em) => {
                em.focus();
                None
            },
            Element::EditLine(em) => Some(em.focus()),
            Element::EditBox(em) => Some(em.focus()),
            Element::StatusLine(em) => {
                em.focus();
                None
            },
            Element::Button(em) => {
                em.focus();
                None
            },
        }
    }

    /// What losing the focus leaves, for each kind of element.
    pub open spec fn left(self, new: Element) -> bool {
        match (self, new) {
            (Element::HeadLine(a), Element::HeadLine(b)) => a.same(b),
            (Element::Border(a), Element::Border(b)) => !b.sp_focus() && a.keeps(b)
                && b.sp_render_type() == a.sp_render_type(),
            (Element::Span(a), Element::Span(b)) => b == a,
            (Element::EditLine(a), Element::EditLine(b)) => a.left(b),
            (Element::EditBox(a), Element::EditBox(b)) => a.left(b),
            (Element::StatusLine(a), Element::StatusLine(b)) => a.same(b),
            (Element::Button(a), Element::Button(b)) => !b.sp_focus() && a.keeps(b)
                && b.sp_render_type() == a.sp_render_type(),
            _ => false,
        }
    }

    /// The element loses the focus.
    pub fn leave(&mut self)
        ensures
            old(self).left(*final(self)),
    {
        match self {
            Element::HeadLine(em) => em.leave(),
            Element::Border(em) => em.leave(),
            Element::Span(em) => em.leave(),
            Element::EditLine(em) => em.leave(),
            Element::EditBox(em) => em.leave(),
            Element::StatusLine(em) => em.leave(),
            Element::Button(em) => em.leave(),
        }
    }

    /// Whether the element can take `evnt`.
    pub open spec fn can_take(self, evnt: Event) -> bool {
        match self {
            Element::EditLine(em) => em.can_take(evnt),
            Element::EditBox(em) => em.can_take(evnt),
            Element::Button(em) => em.can_take(evnt),
            _ => true,
        }
    }

    /// Whether the element can take `evnt`.
    pub fn can_handle(&self, evnt: &Event) -> (r: bool)
        ensures
            r == self.can_take(*evnt),
    {
        match self {
            Element::EditLine(em) => em.can_handle(evnt),
            Element::EditBox(em) => em.can_handle(evnt),
            Element::Button(em) => em.can_handle(evnt),
            _ => true,
        }
    }

    /// The event that the element hands back for `evnt`.
    pub open spec fn handed_back(self, evnt: Event) -> Option<Event> {
        match self {
            Element::EditLine(_) => if line_routes(evnt) {
                edit_res_event(evnt)
            } else {
                Some(evnt)
            },
            Element::EditBox(_) => if box_routes(evnt) {
                edit_res_event(evnt)
            } else {
                Some(evnt)
            },
            Element::Button(em) => em.pressed(evnt),
            _ => Some(evnt),
        }
    }

    /// What handling `evnt` leaves and returns, for each kind of element:
    /// the event handed back and, for an editing element, the cell to put
    /// the terminal's cursor in.
    pub open spec fn handled(
        self,
        new: Element,
        evnt: Event,
        r: Result<(Option<Event>, Option<(u16, u16)>)>,
    ) -> bool {
        match (self, new) {
            (Element::EditLine(a), Element::EditLine(b)) => match r {
                Ok((e, Some(c))) => a.handled(b, evnt, Ok((e, c))),
                Ok((_, None)) => false,
                Err(e) => a.handled(b, evnt, Err(e)),
            },
            (Element::EditBox(a), Element::EditBox(b)) => match r {
                Ok((e, Some(c))) => a.handled(b, evnt, Ok((e, c))),
                Ok((_, None)) => false,
                Err(e) => a.handled(b, evnt, Err(e)),
            },
            (Element::HeadLine(a), Element::HeadLine(b)) => r == Ok::<
                (Option<Event>, Option<(u16, u16)>),
                crate::errors::Error,
            >((Some(evnt), None)) && a.same(b),
            (Element::StatusLine(a), Element::StatusLine(b)) => r == Ok::<
                (Option<Event>, Option<(u16, u16)>),
                crate::errors::Error,
            >((Some(evnt), None)) && a.same(b),
            (Element::Border(a), Element::Border(b)) => r == Ok::<
                (Option<Event>, Option<(u16, u16)>),
                crate::errors::Error,
            >((Some(evnt), None)) && b == a,
            (Element::Span(a), Element::Span(b)) => r == Ok::<
                (Option<Event>, Option<(u16, u16)>),
                crate::errors::Error,
            >((Some(evnt), None)) && b == a,
            (Element::Button(a), Element::Button(b)) => r == Ok::<
                (Option<Event>, Option<(u16, u16)>),
                crate::errors::Error,
            >((a.pressed(evnt), None)) && b == a,
            _ => false,
        }
    }

    /// The element handles `evnt`: the result is the event it hands back
    /// and, for an editing element, the cell to put the terminal's cursor
    /// in.
    pub fn handle_event(&mut self, evnt: Event) -> (r: Result<(Option<Event>, Option<(u16, u16)>)>)
        requires
            old(self).can_take(evnt),
        ensures
            old(self).handled(*final(self), evnt, r),
    {
        match self {
            Element::HeadLine(em) => match em.handle_event(evnt) {
                Ok(e) => Ok((e, None)),
                Err(e) => Err(e),
            },
            Element::Border(em) => match em.handle_event(evnt) {
                Ok(e) => Ok((e, None)),
                Err(e) => Err(e),
            },
            Element::Span(em) => match em.handle_event(evnt) {
                Ok(e) => Ok((e, None)),
                Err(e) => Err(e),
            },
            Element::EditLine(em) => match em.handle_event(evnt) {
                Ok((e, c)) => Ok((e, Some(c))),
                Err(e) => Err(e),
            },
            Element::EditBox(em) => match em.handle_event(evnt) {
                Ok((e, c)) => Ok((e, Some(c))),
                Err(e) => Err(e),
            },
            Element::StatusLine(em) => match em.handle_event(evnt) {
                Ok(e) => Ok((e, None)),
                Err(e) => Err(e),
            },
            Element::Button(em) => match em.handle_event(evnt) {
                Ok(e) => Ok((e, None)),
                Err(e) => Err(e),
            },
        }
    }

    /// The cell that the element puts the terminal's cursor in when it
    /// takes the focus: only an editing element has one.
    pub open spec fn focus_cell(self) -> Option<(u16, u16)> {
        match self {
            Element::EditLine(em) => Some(cursor_cell_of(em.sp_edit_vp())),
            Element::EditBox(em) => Some(cursor_cell_of(em.sp_edit_vp())),
            _ => None,
        }
    }

    /// Whether a refresh with no message waiting asks for the element to be
    /// drawn.
    pub open spec fn draws(self, force: bool) -> bool {
        match self {
            Element::HeadLine(_) => force,
            Element::Border(em) => render_step(em.sp_focus(), em.sp_render_type(), force).1,
            Element::Span(_) => force,
            Element::EditLine(em) => em.sp_focus(),
            Element::EditBox(em) => force || em.sp_focus(),
            Element::StatusLine(_) => force,
            Element::Button(em) => render_step(em.sp_focus(), em.sp_render_type(), force).1,
        }
    }

    /// The element can be refreshed, take the focus and be drawn.
    pub open spec fn ready(self) -> bool {
        self.can_refresh() && self.can_focus() && self.can_draw()
    }
}

/// Following the buffer's cursor leaves the cursor where the terminal can
/// put it.
pub proof fn lemma_follow_fits(vp: Viewport, new_vp: Viewport, ed_cursor: (usize, usize))
    requires
        vp.can_follow(ed_cursor),
        follows(new_vp, vp, ed_cursor),
    ensures
        cursor_fits(new_vp),
        new_vp.sp_ed_origin().1 <= ed_cursor.1,
{
    lemma_follow_tracks_cursor(vp, ed_cursor);
}

/// After an edit, the line that the edit viewport starts at is a line of
/// the text, or the one just past its end.
proof fn lemma_edit_origin_bound(b: Buffer, nb: Buffer, vp: Viewport, new_vp: Viewport, evnt: Event)
    requires
        b.wf(),
        (nb.text(), nb.cursor_pos()) == b.after(evnt),
        nb.wf(),
        vp.can_follow(edit_res_cell(b, evnt)),
        follows(new_vp, vp, edit_res_cell(b, evnt)),
        edit_buffer::edit_event_of(evnt) == edit_buffer::EditEvent::Backspace && b.cursor_pos() == 0
            ==> nb.text() == b.text(),
    ensures
        new_vp.sp_ed_origin().1 <= count_lines(nb.text()),
{
    let cell = edit_res_cell(b, evnt);
    lemma_follow_fits(vp, new_vp, cell);
    if !(edit_buffer::edit_event_of(evnt) == edit_buffer::EditEvent::Backspace && b.cursor_pos()
        == 0) {
        nb.lemma_cursor_fits();
        edit_buffer::lemma_line_of_bound(nb.text(), nb.cursor_pos());
    }
}

/// A ready element that handles an event stays ready, and of its kind.
pub proof fn lemma_handled_ready(
    a: Element,
    b: Element,
    evnt: Event,
    r: Result<(Option<Event>, Option<(u16, u16)>)>,
)
    requires
        a.ready(),
        a.can_take(evnt),
        a.handled(b, evnt, r),
    ensures
        b.ready(),
        a.same_kind(b),
        r is Ok,
        r matches Ok((e, _)) && e == a.handed_back(evnt),
{
    match (a, b) {
        (Element::EditLine(x), Element::EditLine(y)) => {
            if line_routes(evnt) {
                lemma_follow_fits(x.sp_edit_vp(), y.sp_edit_vp(), edit_res_cell(x.sp_buffer(), evnt));
            }
        },
        (Element::EditBox(x), Element::EditBox(y)) => {
            if box_routes(evnt) {
                let cell = edit_res_cell(x.sp_buffer(), evnt);
                lemma_follow_fits(x.sp_edit_vp(), y.sp_edit_vp(), cell);
                lemma_edit_origin_bound(
                    x.sp_buffer(),
                    y.sp_buffer(),
                    x.sp_edit_vp(),
                    y.sp_edit_vp(),
                    evnt,
                );
            }
        },
        _ => {},
    }
}

/// A ready element that loses the focus stays ready, and of its kind.
pub proof fn lemma_left_ready(a: Element, b: Element)
    requires
        a.ready(),
        a.left(b),
    ensures
        b.ready(),
        a.same_kind(b),
{
}

/// A ready element that takes the focus stays ready, and of its kind.
pub proof fn lemma_focused_ready(a: Element, b: Element, cell: Option<(u16, u16)>)
    requires
        a.ready(),
        a.focused(b, cell),
    ensures
        b.ready(),
        a.same_kind(b),
{
}

/// A ready element that is refreshed stays ready, and of its kind.
pub proof fn lemma_refreshed_ready(a: Element, b: Element, msg: Received, force: bool, r: Result<bool>)
    requires
        a.ready(),
        a.refreshed(b, msg, force, r),
        msg matches Received::Date(d) ==> d.valid(),
        msg matches Received::Period(d0, d1) ==> d0.valid() && d1.valid(),
    ensures
        b.ready(),
        a.same_kind(b),
{
}

} // verus!
